//! The two caches of a project: which generated file each source produced, from which
//! source size and modification time; and which build output each build step produced,
//! from which fingerprint. Both are kept in text files, one entry per line.
use crate::text::{chars_eq, chars_of, push_str, string_of};
use crate::project::fields::{
    decimal, escape, escape_spec, fields_spec, lines_spec, parse_u64, parse_u64_spec, split_fields,
    split_lines, u64_decimal, unescape, unescape_spec,
};
use crate::project::table::{table_get, table_insert, table_view, table_wf};
use vstd::prelude::*;

verus! {

/// The first line of a transpilation cache file.
pub const CACHE_VERSION: &'static str = "v2";

/// The first line of a build cache file.
pub const BUILD_CACHE_VERSION: &'static str = "build-v2";

/// The size and modification time (nanoseconds since the Unix epoch) of a source file.
#[derive(Clone, Copy, Debug, PartialEq, Eq, Structural)]
pub struct SourceFingerprint {
    pub size: u64,
    pub modified: u64,
}

impl SourceFingerprint {
    /// The fingerprint of a file with the given metadata.
    pub fn from_metadata(size: u64, modified: u64) -> (fingerprint: Self)
        ensures
            fingerprint.size == size,
            fingerprint.modified == modified,
    {
        SourceFingerprint { size, modified }
    }

    pub fn size(&self) -> (size: u64)
        ensures
            size == self.size,
    {
        self.size
    }

    pub fn modified(&self) -> (modified: u64)
        ensures
            modified == self.modified,
    {
        self.modified
    }
}

/// What the cache remembers of one source: the file generated from it and the fingerprint
/// the source had then.
#[derive(Clone, Debug)]
pub struct CacheEntry {
    pub generated_path: String,
    pub fingerprint: SourceFingerprint,
}

/// An entry as the contracts see it.
pub open spec fn entry_view(entry: CacheEntry) -> (Seq<char>, SourceFingerprint) {
    (entry.generated_path@, entry.fingerprint)
}

impl CacheEntry {
    pub fn new(generated_path: String, fingerprint: SourceFingerprint) -> (entry: Self)
        ensures
            entry.generated_path == generated_path,
            entry.fingerprint == fingerprint,
    {
        CacheEntry { generated_path, fingerprint }
    }

    pub fn generated_path(&self) -> (path: &str)
        ensures
            path@ == self.generated_path@,
    {
        self.generated_path.as_str()
    }

    /// The source still has the size and modification time it had when the entry was made.
    pub fn matches(&self, fingerprint: &SourceFingerprint) -> (same: bool)
        ensures
            same == (self.fingerprint == *fingerprint),
    {
        self.fingerprint.size == fingerprint.size && self.fingerprint.modified
            == fingerprint.modified
    }
}

/// The transpilation cache: an entry per source path, in path order.
pub struct CacheState {
    pub entries: Vec<(String, CacheEntry)>,
}

/// The cache as a map from source path to generated path and fingerprint.
pub open spec fn cache_view(entries: Seq<(String, CacheEntry)>) -> Map<
    Seq<char>,
    (Seq<char>, SourceFingerprint),
> {
    table_view(entries).map_values(|e: CacheEntry| entry_view(e))
}

impl CacheState {
    /// Entries sorted by path (as `Path` orders them), each path once.
    pub open spec fn wf(&self) -> bool {
        table_wf(self.entries@, true)
    }

    pub open spec fn view(&self) -> Map<Seq<char>, (Seq<char>, SourceFingerprint)> {
        cache_view(self.entries@)
    }

    pub fn new() -> (state: Self)
        ensures
            state.wf(),
            state.view() == Map::<Seq<char>, (Seq<char>, SourceFingerprint)>::empty(),
    {
        let state = CacheState { entries: Vec::new() };
        assert(state.view() =~= Map::<Seq<char>, (Seq<char>, SourceFingerprint)>::empty());
        state
    }

    /// The entry of a source path.
    pub fn get(&self, path: &str) -> (entry: Option<&CacheEntry>)
        requires
            self.wf(),
        ensures
            entry is Some <==> self.view().dom().contains(path@),
            entry matches Some(e) ==> entry_view(*e) == self.view()[path@],
    {
        table_get(&self.entries, path)
    }

    /// Records the entry of a source path, replacing the one it had.
    pub fn insert(&mut self, path: String, entry: CacheEntry)
        requires
            old(self).wf(),
        ensures
            final(self).wf(),
            final(self).view() == old(self).view().insert(path@, entry_view(entry)),
            final(self).entries@.len() == old(self).entries@.len() + (if old(self).view().dom().contains(
                path@,
            ) {
                0int
            } else {
                1int
            }),
    {
        let ghost k = path@;
        let ghost e = entry;
        table_insert(&mut self.entries, path, entry, true);
        assert(self.view() =~= old(self).view().insert(k, entry_view(e)));
    }

    /// The entries, in path order (as `Path` orders them).
    pub fn entries(&self) -> (entries: &Vec<(String, CacheEntry)>)
        ensures
            entries@ == self.entries@,
    {
        &self.entries
    }
}

// ---------------------------------------------------------------------------------------
// The transpilation cache file.
/// One line of the file: the source path, the generated path, the size and the
/// modification time, separated by tabs; paths escaped.
pub open spec fn parse_cache_line(line: Seq<char>) -> Option<
    (Seq<char>, (Seq<char>, SourceFingerprint)),
> {
    let f = fields_spec(line);
    if f.len() != 4 {
        None
    } else {
        match (
            unescape_spec(f[0]),
            unescape_spec(f[1]),
            parse_u64_spec(f[2]),
            parse_u64_spec(f[3]),
        ) {
            (Some(source), Some(generated), Some(size), Some(modified)) => Some(
                (source, (generated, SourceFingerprint { size, modified })),
            ),
            _ => None,
        }
    }
}

/// The entries of the lines after the version line; empty lines are skipped, and one bad
/// line spoils the whole file.
pub open spec fn parse_cache_lines(lines: Seq<Seq<char>>) -> Option<
    Map<Seq<char>, (Seq<char>, SourceFingerprint)>,
>
    decreases lines.len(),
{
    if lines.len() == 0 {
        Some(Map::empty())
    } else {
        match parse_cache_lines(lines.drop_last()) {
            Some(m) => if lines.last().len() == 0 {
                Some(m)
            } else {
                match parse_cache_line(lines.last()) {
                    Some((source, entry)) => Some(m.insert(source, entry)),
                    None => None,
                }
            },
            None => None,
        }
    }
}

/// What a transpilation cache file holds: nothing unless it starts with the version line
/// and every other line is an entry or empty.
pub open spec fn parsed_cache(text: Seq<char>) -> Map<Seq<char>, (Seq<char>, SourceFingerprint)> {
    let lines = lines_spec(text);
    if lines.len() == 0 || lines[0] != CACHE_VERSION@ {
        Map::empty()
    } else {
        match parse_cache_lines(lines.drop_first()) {
            Some(m) => m,
            None => Map::empty(),
        }
    }
}

/// A failing line spoils every longer list of lines.
proof fn lemma_parse_cache_lines_prefix(lines: Seq<Seq<char>>, j: int)
    requires
        0 <= j <= lines.len(),
        parse_cache_lines(lines.take(j)) is None,
    ensures
        parse_cache_lines(lines) is None,
    decreases lines.len(),
{
    if j < lines.len() {
        assert(lines.drop_last().take(j) =~= lines.take(j));
        lemma_parse_cache_lines_prefix(lines.drop_last(), j);
    } else {
        assert(lines.take(j) =~= lines);
    }
}

/// Reads the transpilation cache from the text of its file.
pub fn parse_cache_state(content: &str) -> (state: CacheState)
    ensures
        state.wf(),
        state.view() == parsed_cache(content@),
{
    let text = chars_of(content);
    let lines = split_lines(&text);
    let ghost lv = lines@.map_values(|l: Vec<char>| l@);
    let version = chars_of(CACHE_VERSION);
    if lines.len() == 0 || !chars_eq(&lines[0], &version) {
        return CacheState::new();
    }
    let ghost rest = lv.drop_first();
    let mut state = CacheState::new();
    let mut i: usize = 1;
    assert(rest.take(0) =~= Seq::<Seq<char>>::empty());
    while i < lines.len()
        invariant
            1 <= i <= lines@.len(),
            lv == lines@.map_values(|l: Vec<char>| l@),
            lv == lines_spec(content@),
            rest == lv.drop_first(),
            lv.len() > 0 && lv[0] == CACHE_VERSION@,
            state.wf(),
            parse_cache_lines(rest.take(i - 1)) == Some(state.view()),
        decreases lines@.len() - i,
    {
        assert(rest.take(i as int).drop_last() =~= rest.take(i - 1));
        assert(rest.take(i as int).last() == lines@[i as int]@);
        if lines[i].len() == 0 {
            i += 1;
            continue;
        }
        let fields = split_fields(&lines[i]);
        let ghost fv = fields@.map_values(|f: String| f@);
        assert(fv.len() == fields@.len());
        let parsed = if fields.len() != 4 {
            None
        } else {
            assert(fv[0] == fields@[0]@ && fv[1] == fields@[1]@);
            assert(fv[2] == fields@[2]@ && fv[3] == fields@[3]@);
            match (
                unescape(fields[0].as_str()),
                unescape(fields[1].as_str()),
                parse_u64(fields[2].as_str()),
                parse_u64(fields[3].as_str()),
            ) {
                (Some(source), Some(generated), Some(size), Some(modified)) => Some(
                    (source, generated, size, modified),
                ),
                _ => None,
            }
        };
        match parsed {
            Some((source, generated, size, modified)) => {
                state.insert(
                    source,
                    CacheEntry::new(generated, SourceFingerprint::from_metadata(size, modified)),
                );
            },
            None => {
                proof {
                    lemma_parse_cache_lines_prefix(rest, i as int);
                }
                return CacheState::new();
            },
        }
        i += 1;
    }
    assert(rest.take(i - 1) =~= rest);
    state
}

/// The transpilation cache, from the text of its file if it could be read.
pub fn load_cache_state(content: Option<&str>) -> (state: CacheState)
    ensures
        state.wf(),
        state.view() == match content {
            Some(text) => parsed_cache(text@),
            None => Map::empty(),
        },
{
    match content {
        Some(text) => parse_cache_state(text),
        None => CacheState::new(),
    }
}

/// The line of one entry.
pub open spec fn cache_line(source: Seq<char>, entry: (Seq<char>, SourceFingerprint)) -> Seq<char> {
    escape_spec(source) + seq!['\t'] + escape_spec(entry.0) + seq!['\t'] + decimal(
        entry.1.size as nat,
    ) + seq!['\t'] + decimal(entry.1.modified as nat) + seq!['\n']
}

/// The lines of entries, in order.
pub open spec fn cache_lines(entries: Seq<(String, CacheEntry)>) -> Seq<char>
    decreases entries.len(),
{
    if entries.len() == 0 {
        seq![]
    } else {
        cache_lines(entries.drop_last()) + cache_line(
            entries.last().0@,
            entry_view(entries.last().1),
        )
    }
}

/// The text of a transpilation cache file: the version line, then one line per entry.
pub open spec fn cache_text(entries: Seq<(String, CacheEntry)>) -> Seq<char> {
    CACHE_VERSION@ + seq!['\n'] + cache_lines(entries)
}

/// Writes the transpilation cache as the text of its file.
pub fn cache_state_content(state: &CacheState) -> (content: String)
    ensures
        content@ == cache_text(state.entries@),
{
    let mut out: Vec<char> = Vec::new();
    push_str(&mut out, CACHE_VERSION);
    out.push('\n');
    let ghost head = out@;
    let mut i: usize = 0;
    assert(state.entries@.take(0) =~= Seq::<(String, CacheEntry)>::empty());
    while i < state.entries.len()
        invariant
            i <= state.entries@.len(),
            head == CACHE_VERSION@ + seq!['\n'],
            out@ == head + cache_lines(state.entries@.take(i as int)),
        decreases state.entries@.len() - i,
    {
        assert(state.entries@.take(i + 1).drop_last() =~= state.entries@.take(i as int));
        let (source, entry) = &state.entries[i];
        let ghost before = out@;
        push_str(&mut out, escape(source.as_str()).as_str());
        out.push('\t');
        push_str(&mut out, escape(entry.generated_path.as_str()).as_str());
        out.push('\t');
        push_str(&mut out, u64_decimal(entry.fingerprint.size).as_str());
        out.push('\t');
        push_str(&mut out, u64_decimal(entry.fingerprint.modified).as_str());
        out.push('\n');
        assert(out@ =~= before + cache_line(source@, entry_view(*entry)));
        i += 1;
    }
    assert(state.entries@.take(i as int) =~= state.entries@);
    string_of(&out)
}

// ---------------------------------------------------------------------------------------
// The build cache.
/// What the build cache remembers of one build step: its output and the fingerprint of
/// what it was built from.
#[derive(Clone, Debug)]
pub struct BuildCacheEntry {
    pub output_path: String,
    pub fingerprint: u64,
}

pub open spec fn build_entry_view(entry: BuildCacheEntry) -> (Seq<char>, u64) {
    (entry.output_path@, entry.fingerprint)
}

impl BuildCacheEntry {
    pub fn new(output_path: String, fingerprint: u64) -> (entry: Self)
        ensures
            entry.output_path == output_path,
            entry.fingerprint == fingerprint,
    {
        BuildCacheEntry { output_path, fingerprint }
    }

    /// The step would write the same output from the same inputs.
    pub fn matches(&self, output_path: &str, fingerprint: u64) -> (same: bool)
        ensures
            same == (self.fingerprint == fingerprint && self.output_path@ == output_path@),
    {
        if self.fingerprint != fingerprint {
            return false;
        }
        let a = chars_of(self.output_path.as_str());
        let b = chars_of(output_path);
        chars_eq(&a, &b)
    }
}

/// The build cache: an entry per build step key, in key order.
pub struct BuildCacheState {
    pub entries: Vec<(String, BuildCacheEntry)>,
}

pub open spec fn build_cache_view(entries: Seq<(String, BuildCacheEntry)>) -> Map<
    Seq<char>,
    (Seq<char>, u64),
> {
    table_view(entries).map_values(|e: BuildCacheEntry| build_entry_view(e))
}

impl BuildCacheState {
    pub open spec fn wf(&self) -> bool {
        table_wf(self.entries@, false)
    }

    pub open spec fn view(&self) -> Map<Seq<char>, (Seq<char>, u64)> {
        build_cache_view(self.entries@)
    }

    pub fn new() -> (state: Self)
        ensures
            state.wf(),
            state.view() == Map::<Seq<char>, (Seq<char>, u64)>::empty(),
    {
        let state = BuildCacheState { entries: Vec::new() };
        assert(state.view() =~= Map::<Seq<char>, (Seq<char>, u64)>::empty());
        state
    }

    pub fn get(&self, key: &str) -> (entry: Option<&BuildCacheEntry>)
        requires
            self.wf(),
        ensures
            entry is Some <==> self.view().dom().contains(key@),
            entry matches Some(e) ==> build_entry_view(*e) == self.view()[key@],
    {
        table_get(&self.entries, key)
    }

    pub fn insert(&mut self, key: String, entry: BuildCacheEntry)
        requires
            old(self).wf(),
        ensures
            final(self).wf(),
            final(self).view() == old(self).view().insert(key@, build_entry_view(entry)),
            final(self).entries@.len() == old(self).entries@.len() + (if old(self).view().dom().contains(
                key@,
            ) {
                0int
            } else {
                1int
            }),
    {
        let ghost k = key@;
        let ghost e = entry;
        table_insert(&mut self.entries, key, entry, false);
        assert(self.view() =~= old(self).view().insert(k, build_entry_view(e)));
    }

    pub fn entries(&self) -> (entries: &Vec<(String, BuildCacheEntry)>)
        ensures
            entries@ == self.entries@,
    {
        &self.entries
    }
}

/// One line of the build cache file: the key, the output path and the fingerprint.
pub open spec fn parse_build_line(line: Seq<char>) -> Option<(Seq<char>, (Seq<char>, u64))> {
    let f = fields_spec(line);
    if f.len() != 3 {
        None
    } else {
        match (unescape_spec(f[0]), unescape_spec(f[1]), parse_u64_spec(f[2])) {
            (Some(key), Some(output), Some(fingerprint)) => Some((key, (output, fingerprint))),
            _ => None,
        }
    }
}

pub open spec fn parse_build_lines(lines: Seq<Seq<char>>) -> Option<Map<Seq<char>, (Seq<char>, u64)>>
    decreases lines.len(),
{
    if lines.len() == 0 {
        Some(Map::empty())
    } else {
        match parse_build_lines(lines.drop_last()) {
            Some(m) => if lines.last().len() == 0 {
                Some(m)
            } else {
                match parse_build_line(lines.last()) {
                    Some((key, entry)) => Some(m.insert(key, entry)),
                    None => None,
                }
            },
            None => None,
        }
    }
}

pub open spec fn parsed_build_cache(text: Seq<char>) -> Map<Seq<char>, (Seq<char>, u64)> {
    let lines = lines_spec(text);
    if lines.len() == 0 || lines[0] != BUILD_CACHE_VERSION@ {
        Map::empty()
    } else {
        match parse_build_lines(lines.drop_first()) {
            Some(m) => m,
            None => Map::empty(),
        }
    }
}

proof fn lemma_parse_build_lines_prefix(lines: Seq<Seq<char>>, j: int)
    requires
        0 <= j <= lines.len(),
        parse_build_lines(lines.take(j)) is None,
    ensures
        parse_build_lines(lines) is None,
    decreases lines.len(),
{
    if j < lines.len() {
        assert(lines.drop_last().take(j) =~= lines.take(j));
        lemma_parse_build_lines_prefix(lines.drop_last(), j);
    } else {
        assert(lines.take(j) =~= lines);
    }
}

/// Reads the build cache from the text of its file.
pub fn parse_build_cache_state(content: &str) -> (state: BuildCacheState)
    ensures
        state.wf(),
        state.view() == parsed_build_cache(content@),
{
    let text = chars_of(content);
    let lines = split_lines(&text);
    let ghost lv = lines@.map_values(|l: Vec<char>| l@);
    let version = chars_of(BUILD_CACHE_VERSION);
    if lines.len() == 0 || !chars_eq(&lines[0], &version) {
        return BuildCacheState::new();
    }
    let ghost rest = lv.drop_first();
    let mut state = BuildCacheState::new();
    let mut i: usize = 1;
    assert(rest.take(0) =~= Seq::<Seq<char>>::empty());
    while i < lines.len()
        invariant
            1 <= i <= lines@.len(),
            lv == lines@.map_values(|l: Vec<char>| l@),
            lv == lines_spec(content@),
            rest == lv.drop_first(),
            lv.len() > 0 && lv[0] == BUILD_CACHE_VERSION@,
            state.wf(),
            parse_build_lines(rest.take(i - 1)) == Some(state.view()),
        decreases lines@.len() - i,
    {
        assert(rest.take(i as int).drop_last() =~= rest.take(i - 1));
        assert(rest.take(i as int).last() == lines@[i as int]@);
        if lines[i].len() == 0 {
            i += 1;
            continue;
        }
        let fields = split_fields(&lines[i]);
        let ghost fv = fields@.map_values(|f: String| f@);
        assert(fv.len() == fields@.len());
        let parsed = if fields.len() != 3 {
            None
        } else {
            assert(fv[0] == fields@[0]@ && fv[1] == fields@[1]@ && fv[2] == fields@[2]@);
            match (
                unescape(fields[0].as_str()),
                unescape(fields[1].as_str()),
                parse_u64(fields[2].as_str()),
            ) {
                (Some(key), Some(output), Some(fingerprint)) => Some((key, output, fingerprint)),
                _ => None,
            }
        };
        match parsed {
            Some((key, output, fingerprint)) => {
                state.insert(key, BuildCacheEntry::new(output, fingerprint));
            },
            None => {
                proof {
                    lemma_parse_build_lines_prefix(rest, i as int);
                }
                return BuildCacheState::new();
            },
        }
        i += 1;
    }
    assert(rest.take(i - 1) =~= rest);
    state
}

/// The build cache, from the text of its file if it could be read.
pub fn load_build_cache_state(content: Option<&str>) -> (state: BuildCacheState)
    ensures
        state.wf(),
        state.view() == match content {
            Some(text) => parsed_build_cache(text@),
            None => Map::empty(),
        },
{
    match content {
        Some(text) => parse_build_cache_state(text),
        None => BuildCacheState::new(),
    }
}

pub open spec fn build_line(key: Seq<char>, entry: (Seq<char>, u64)) -> Seq<char> {
    escape_spec(key) + seq!['\t'] + escape_spec(entry.0) + seq!['\t'] + decimal(entry.1 as nat)
        + seq!['\n']
}

pub open spec fn build_lines(entries: Seq<(String, BuildCacheEntry)>) -> Seq<char>
    decreases entries.len(),
{
    if entries.len() == 0 {
        seq![]
    } else {
        build_lines(entries.drop_last()) + build_line(
            entries.last().0@,
            build_entry_view(entries.last().1),
        )
    }
}

pub open spec fn build_cache_text(entries: Seq<(String, BuildCacheEntry)>) -> Seq<char> {
    BUILD_CACHE_VERSION@ + seq!['\n'] + build_lines(entries)
}

/// Writes the build cache as the text of its file.
pub fn build_cache_state_content(state: &BuildCacheState) -> (content: String)
    ensures
        content@ == build_cache_text(state.entries@),
{
    let mut out: Vec<char> = Vec::new();
    push_str(&mut out, BUILD_CACHE_VERSION);
    out.push('\n');
    let ghost head = out@;
    let mut i: usize = 0;
    assert(state.entries@.take(0) =~= Seq::<(String, BuildCacheEntry)>::empty());
    while i < state.entries.len()
        invariant
            i <= state.entries@.len(),
            head == BUILD_CACHE_VERSION@ + seq!['\n'],
            out@ == head + build_lines(state.entries@.take(i as int)),
        decreases state.entries@.len() - i,
    {
        assert(state.entries@.take(i + 1).drop_last() =~= state.entries@.take(i as int));
        let (key, entry) = &state.entries[i];
        let ghost before = out@;
        push_str(&mut out, escape(key.as_str()).as_str());
        out.push('\t');
        push_str(&mut out, escape(entry.output_path.as_str()).as_str());
        out.push('\t');
        push_str(&mut out, u64_decimal(entry.fingerprint).as_str());
        out.push('\n');
        assert(out@ =~= before + build_line(key@, build_entry_view(*entry)));
        i += 1;
    }
    assert(state.entries@.take(i as int) =~= state.entries@);
    string_of(&out)
}

} // verus!
