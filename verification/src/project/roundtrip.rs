//! What a cache file gives back of what was written to it.
use crate::project::cache::{
    BUILD_CACHE_VERSION, BuildCacheEntry, CACHE_VERSION, CacheEntry, build_cache_text,
    build_cache_view, build_entry_view, build_line, build_lines, cache_line, cache_lines,
    cache_text, cache_view, entry_view, parse_build_line, parse_build_lines, parse_cache_line,
    parse_cache_lines, parsed_build_cache, parsed_cache, SourceFingerprint,
};
use crate::project::fields::{
    decimal, escape_spec, fields_spec, find_char, is_digit_char, lemma_decimal_digits,
    lemma_escape_plain, lemma_find_char_bounds, lemma_parse_decimal, lemma_unescape_escape,
    lines_spec, strip_cr,
};
use crate::project::table::{
    has_key, lemma_sorted_pair, lemma_sorted_same_keys, lemma_table_view_at, path_lt,
    table_unique, table_view, table_wf,
};
use vstd::prelude::*;

verus! {

/// `c` does not occur in `s`.
pub open spec fn free_of(s: Seq<char>, c: char) -> bool {
    forall|i: int| 0 <= i < s.len() ==> #[trigger] s[i] != c
}

/// Searching a text that starts with `a` finds a `c` of `a` first, if it has one.
proof fn lemma_find_prefix(a: Seq<char>, b: Seq<char>, c: char, i: int)
    requires
        0 <= i <= a.len(),
    ensures
        find_char(a, c, i) matches Some(j) ==> find_char(a + b, c, i) == Some(j),
        find_char(a, c, i) is None ==> find_char(a + b, c, i) == (match find_char(
            b,
            c,
            0,
        ) {
            Some(j) => Some(j + a.len()),
            None => None::<int>,
        }),
    decreases a.len() - i,
{
    if i < a.len() {
        assert((a + b)[i] == a[i]);
        if a[i] != c {
            lemma_find_prefix(a, b, c, i + 1);
        }
    } else {
        lemma_find_offset(a, b, c, 0);
    }
}

/// Searching past a prefix is searching the rest, moved.
proof fn lemma_find_offset(a: Seq<char>, b: Seq<char>, c: char, k: int)
    requires
        0 <= k,
    ensures
        find_char(a + b, c, a.len() + k) == (match find_char(b, c, k) {
            Some(j) => Some(j + a.len()),
            None => None::<int>,
        }),
    decreases b.len() - k,
{
    if k < b.len() {
        assert((a + b)[a.len() + k] == b[k]);
        if b[k] != c {
            lemma_find_offset(a, b, c, k + 1);
        }
    }
}

/// A text free of `c` has no `c` to find.
proof fn lemma_find_none(a: Seq<char>, c: char, i: int)
    requires
        free_of(a, c),
        0 <= i,
    ensures
        find_char(a, c, i) is None,
    decreases a.len() - i,
{
    if i < a.len() {
        lemma_find_none(a, c, i + 1);
    }
}

/// The first `c` of `a + [c] + b`, when `a` has none, ends `a`.
proof fn lemma_find_after(a: Seq<char>, b: Seq<char>, c: char)
    requires
        free_of(a, c),
    ensures
        find_char(a + seq![c] + b, c, 0) == Some(a.len() as int),
{
    lemma_find_none(a, c, 0);
    lemma_find_prefix(a, seq![c] + b, c, 0);
    assert(a + seq![c] + b =~= a + (seq![c] + b));
}

/// The lines of a text whose first line is `a`.
proof fn lemma_lines_cons(a: Seq<char>, b: Seq<char>)
    requires
        free_of(a, '\n'),
    ensures
        lines_spec(a + seq!['\n'] + b) == seq![strip_cr(a)] + lines_spec(b),
{
    let s = a + seq!['\n'] + b;
    lemma_find_after(a, b, '\n');
    assert(s.subrange(0, a.len() as int) =~= a);
    assert(s.subrange(a.len() as int + 1, s.len() as int) =~= b);
}

/// The lines of two texts, the first one ending a line, are the lines of each.
proof fn lemma_lines_append(a: Seq<char>, b: Seq<char>)
    requires
        a.len() == 0 || a.last() == '\n',
    ensures
        lines_spec(a + b) == lines_spec(a) + lines_spec(b),
    decreases a.len(),
{
    if a.len() == 0 {
        assert(a + b =~= b);
        assert(lines_spec(a) =~= Seq::<Seq<char>>::empty());
        assert(Seq::<Seq<char>>::empty() + lines_spec(b) =~= lines_spec(b));
    } else {
        lemma_find_char_bounds(a, '\n', 0);
        let j = find_char(a, '\n', 0)->Some_0;
        lemma_find_prefix(a, b, '\n', 0);
        let rest = a.subrange(j + 1, a.len() as int);
        assert((a + b).subrange(0, j) =~= a.subrange(0, j));
        assert((a + b).subrange(j + 1, (a + b).len() as int) =~= rest + b);
        lemma_lines_append(rest, b);
        assert(lines_spec(a + b) =~= seq![strip_cr(a.subrange(0, j))] + (lines_spec(rest)
            + lines_spec(b)));
    }
}

/// The fields of a line whose first field is `a`.
proof fn lemma_fields_cons(a: Seq<char>, b: Seq<char>)
    requires
        free_of(a, '\t'),
    ensures
        fields_spec(a + seq!['\t'] + b) == seq![a] + fields_spec(b),
{
    let s = a + seq!['\t'] + b;
    lemma_find_after(a, b, '\t');
    assert(s.subrange(0, a.len() as int) =~= a);
    assert(s.subrange(a.len() as int + 1, s.len() as int) =~= b);
}

/// A line without tabs is one field.
proof fn lemma_fields_one(a: Seq<char>)
    requires
        free_of(a, '\t'),
    ensures
        fields_spec(a) == seq![a],
{
    lemma_find_none(a, '\t', 0);
}

/// Escaped texts and decimal numbers hold no tab, newline or carriage return.
proof fn lemma_plain_parts(s: Seq<char>, n: nat)
    ensures
        free_of(escape_spec(s), '\t'),
        free_of(escape_spec(s), '\n'),
        free_of(escape_spec(s), '\r'),
        free_of(decimal(n), '\t'),
        free_of(decimal(n), '\n'),
        free_of(decimal(n), '\r'),
        decimal(n).len() > 0,
{
    lemma_escape_plain(s);
    lemma_decimal_digits(n);
    assert forall|i: int| 0 <= i < decimal(n).len() implies #[trigger] decimal(n)[i] != '\t'
        && decimal(n)[i] != '\n' && decimal(n)[i] != '\r' by {
        assert(is_digit_char(decimal(n)[i]));
    }
}

/// Joining texts free of `c` with other such texts keeps them free of it.
proof fn lemma_free_concat(a: Seq<char>, b: Seq<char>, c: char)
    requires
        free_of(a, c),
        free_of(b, c),
    ensures
        free_of(a + b, c),
{
    assert forall|i: int| 0 <= i < (a + b).len() implies #[trigger] (a + b)[i] != c by {
        if i < a.len() {
            assert((a + b)[i] == a[i]);
        } else {
            assert((a + b)[i] == b[i - a.len()]);
        }
    }
}

/// A map of unique keys is the map of all but the last entry, with the last one added.
proof fn lemma_table_view_last<V>(s: Seq<(String, V)>)
    requires
        table_unique(s),
        s.len() > 0,
    ensures
        table_unique(s.drop_last()),
        table_view(s) == table_view(s.drop_last()).insert(s.last().0@, s.last().1),
{
    let t = s.drop_last();
    let n = s.len() - 1;
    assert forall|i: int, j: int| 0 <= i < j < t.len() implies (#[trigger] t[i]).0@ != (
    #[trigger] t[j]).0@ by {
        assert(t[i] == s[i] && t[j] == s[j]);
    }
    let m = table_view(t).insert(s.last().0@, s.last().1);
    assert forall|k: Seq<char>| #[trigger] table_view(s).dom().contains(k) <==> m.dom().contains(
        k,
    ) by {
        if table_view(s).dom().contains(k) {
            let j = choose|j: int| 0 <= j < s.len() && (#[trigger] s[j]).0@ == k;
            if j < n {
                assert(t[j].0@ == k);
            }
        }
        if table_view(t).dom().contains(k) {
            let j = choose|j: int| 0 <= j < t.len() && (#[trigger] t[j]).0@ == k;
            assert(s[j].0@ == k);
        }
        if k == s.last().0@ {
            assert(s[n].0@ == k);
        }
    }
    assert forall|k: Seq<char>| #[trigger] table_view(s).dom().contains(k) implies table_view(
        s,
    )[k] == m[k] by {
        let j = choose|j: int| 0 <= j < s.len() && (#[trigger] s[j]).0@ == k;
        lemma_table_view_at(s, j);
        if j < n {
            assert(t[j] == s[j]);
            lemma_table_view_at(t, j);
            assert(s[j].0@ != s[n].0@);
        }
    }
    assert(table_view(s) =~= m);
}

// ---------------------------------------------------------------------------------------
// The transpilation cache.
/// The text of an entry's line, without its newline.
pub open spec fn cache_body(source: Seq<char>, entry: (Seq<char>, crate::project::cache::SourceFingerprint)) -> Seq<char> {
    escape_spec(source) + seq!['\t'] + escape_spec(entry.0) + seq!['\t'] + decimal(
        entry.1.size as nat,
    ) + seq!['\t'] + decimal(entry.1.modified as nat)
}

pub open spec fn cache_bodies(entries: Seq<(String, CacheEntry)>) -> Seq<Seq<char>> {
    entries.map_values(|p: (String, CacheEntry)| cache_body(p.0@, entry_view(p.1)))
}

/// An entry's line reads back as the entry.
proof fn lemma_cache_line_roundtrip(source: Seq<char>, entry: (Seq<char>, crate::project::cache::SourceFingerprint))
    ensures
        cache_line(source, entry) == cache_body(source, entry) + seq!['\n'],
        free_of(cache_body(source, entry), '\n'),
        cache_body(source, entry).len() > 0,
        strip_cr(cache_body(source, entry)) == cache_body(source, entry),
        parse_cache_line(cache_body(source, entry)) == Some((source, entry)),
{
    let a = escape_spec(source);
    let b = escape_spec(entry.0);
    let c = decimal(entry.1.size as nat);
    let d = decimal(entry.1.modified as nat);
    lemma_plain_parts(source, entry.1.size as nat);
    lemma_plain_parts(entry.0, entry.1.modified as nat);
    let body = cache_body(source, entry);
    assert(cache_line(source, entry) =~= body + seq!['\n']);
    lemma_fields_one(d);
    lemma_fields_cons(c, d);
    lemma_fields_cons(b, c + seq!['\t'] + d);
    lemma_fields_cons(a, b + seq!['\t'] + c + seq!['\t'] + d);
    assert(body =~= a + seq!['\t'] + (b + seq!['\t'] + c + seq!['\t'] + d));
    assert(b + seq!['\t'] + c + seq!['\t'] + d =~= b + seq!['\t'] + (c + seq!['\t'] + d));
    assert(fields_spec(body) =~= seq![a, b, c, d]);
    lemma_unescape_escape(source);
    lemma_unescape_escape(entry.0);
    lemma_parse_decimal(entry.1.size);
    lemma_parse_decimal(entry.1.modified);
    let tab = seq!['\t'];
    assert(free_of(tab, '\n'));
    lemma_free_concat(a, tab, '\n');
    lemma_free_concat(a + tab, b, '\n');
    lemma_free_concat(a + tab + b, tab, '\n');
    lemma_free_concat(a + tab + b + tab, c, '\n');
    lemma_free_concat(a + tab + b + tab + c, tab, '\n');
    lemma_free_concat(a + tab + b + tab + c + tab, d, '\n');
    assert(body.last() == d.last());
    assert(d.last() != '\r');
}

/// The lines after the version line are the bodies of the entries.
proof fn lemma_cache_lines_split(entries: Seq<(String, CacheEntry)>)
    ensures
        lines_spec(cache_lines(entries)) == cache_bodies(entries),
        cache_lines(entries).len() == 0 || cache_lines(entries).last() == '\n',
    decreases entries.len(),
{
    if entries.len() == 0 {
        assert(lines_spec(Seq::<char>::empty()) =~= Seq::<Seq<char>>::empty());
        assert(cache_bodies(entries) =~= Seq::<Seq<char>>::empty());
    } else {
        let init = entries.drop_last();
        let last = entries.last();
        lemma_cache_lines_split(init);
        lemma_cache_line_roundtrip(last.0@, entry_view(last.1));
        let body = cache_body(last.0@, entry_view(last.1));
        lemma_lines_append(cache_lines(init), body + seq!['\n']);
        lemma_lines_cons(body, Seq::<char>::empty());
        assert(body + seq!['\n'] =~= body + seq!['\n'] + Seq::<char>::empty());
        assert(lines_spec(Seq::<char>::empty()) =~= Seq::<Seq<char>>::empty());
        assert(cache_bodies(entries) =~= cache_bodies(init).push(body));
    }
}

/// Parsing the bodies of sorted, distinct entries gives their map.
proof fn lemma_cache_bodies_parse(entries: Seq<(String, CacheEntry)>)
    requires
        table_unique(entries),
    ensures
        parse_cache_lines(cache_bodies(entries)) == Some(cache_view(entries)),
    decreases entries.len(),
{
    if entries.len() == 0 {
        assert(cache_view(entries) =~= Map::empty());
    } else {
        let init = entries.drop_last();
        let last = entries.last();
        lemma_table_view_last(entries);
        lemma_cache_bodies_parse(init);
        lemma_cache_line_roundtrip(last.0@, entry_view(last.1));
        assert(cache_bodies(entries).drop_last() =~= cache_bodies(init));
        assert(cache_view(entries) =~= cache_view(init).insert(last.0@, entry_view(last.1)));
    }
}

/// What is written to the transpilation cache file reads back as the same cache.
pub proof fn lemma_cache_roundtrip(entries: Seq<(String, CacheEntry)>)
    requires
        table_unique(entries),
    ensures
        parsed_cache(cache_text(entries)) == cache_view(entries),
{
    reveal_strlit("v2");
    let head = CACHE_VERSION@;
    assert(head == "v2"@);
    assert(free_of(head, '\n'));
    lemma_lines_cons(head, cache_lines(entries));
    assert(cache_text(entries) =~= head + seq!['\n'] + cache_lines(entries));
    lemma_cache_lines_split(entries);
    assert(strip_cr(head) == head);
    let lines = lines_spec(cache_text(entries));
    assert(lines.drop_first() =~= cache_bodies(entries));
    lemma_cache_bodies_parse(entries);
}

// ---------------------------------------------------------------------------------------
// The build cache.
pub open spec fn build_body(key: Seq<char>, entry: (Seq<char>, u64)) -> Seq<char> {
    escape_spec(key) + seq!['\t'] + escape_spec(entry.0) + seq!['\t'] + decimal(entry.1 as nat)
}

pub open spec fn build_bodies(entries: Seq<(String, BuildCacheEntry)>) -> Seq<Seq<char>> {
    entries.map_values(|p: (String, BuildCacheEntry)| build_body(p.0@, build_entry_view(p.1)))
}

proof fn lemma_build_line_roundtrip(key: Seq<char>, entry: (Seq<char>, u64))
    ensures
        build_line(key, entry) == build_body(key, entry) + seq!['\n'],
        free_of(build_body(key, entry), '\n'),
        build_body(key, entry).len() > 0,
        strip_cr(build_body(key, entry)) == build_body(key, entry),
        parse_build_line(build_body(key, entry)) == Some((key, entry)),
{
    let a = escape_spec(key);
    let b = escape_spec(entry.0);
    let c = decimal(entry.1 as nat);
    lemma_plain_parts(key, entry.1 as nat);
    lemma_plain_parts(entry.0, entry.1 as nat);
    let body = build_body(key, entry);
    assert(build_line(key, entry) =~= body + seq!['\n']);
    lemma_fields_one(c);
    lemma_fields_cons(b, c);
    lemma_fields_cons(a, b + seq!['\t'] + c);
    assert(body =~= a + seq!['\t'] + (b + seq!['\t'] + c));
    assert(fields_spec(body) =~= seq![a, b, c]);
    lemma_unescape_escape(key);
    lemma_unescape_escape(entry.0);
    lemma_parse_decimal(entry.1);
    let tab = seq!['\t'];
    assert(free_of(tab, '\n'));
    lemma_free_concat(a, tab, '\n');
    lemma_free_concat(a + tab, b, '\n');
    lemma_free_concat(a + tab + b, tab, '\n');
    lemma_free_concat(a + tab + b + tab, c, '\n');
    assert(body.last() == c.last());
    assert(c.last() != '\r');
}

proof fn lemma_build_lines_split(entries: Seq<(String, BuildCacheEntry)>)
    ensures
        lines_spec(build_lines(entries)) == build_bodies(entries),
        build_lines(entries).len() == 0 || build_lines(entries).last() == '\n',
    decreases entries.len(),
{
    if entries.len() == 0 {
        assert(lines_spec(Seq::<char>::empty()) =~= Seq::<Seq<char>>::empty());
        assert(build_bodies(entries) =~= Seq::<Seq<char>>::empty());
    } else {
        let init = entries.drop_last();
        let last = entries.last();
        lemma_build_lines_split(init);
        lemma_build_line_roundtrip(last.0@, build_entry_view(last.1));
        let body = build_body(last.0@, build_entry_view(last.1));
        lemma_lines_append(build_lines(init), body + seq!['\n']);
        lemma_lines_cons(body, Seq::<char>::empty());
        assert(body + seq!['\n'] =~= body + seq!['\n'] + Seq::<char>::empty());
        assert(lines_spec(Seq::<char>::empty()) =~= Seq::<Seq<char>>::empty());
        assert(build_bodies(entries) =~= build_bodies(init).push(body));
    }
}

proof fn lemma_build_bodies_parse(entries: Seq<(String, BuildCacheEntry)>)
    requires
        table_unique(entries),
    ensures
        parse_build_lines(build_bodies(entries)) == Some(build_cache_view(entries)),
    decreases entries.len(),
{
    if entries.len() == 0 {
        assert(build_cache_view(entries) =~= Map::empty());
    } else {
        let init = entries.drop_last();
        let last = entries.last();
        lemma_table_view_last(entries);
        lemma_build_bodies_parse(init);
        lemma_build_line_roundtrip(last.0@, build_entry_view(last.1));
        assert(build_bodies(entries).drop_last() =~= build_bodies(init));
        assert(build_cache_view(entries) =~= build_cache_view(init).insert(
            last.0@,
            build_entry_view(last.1),
        ));
    }
}

/// What is written to the build cache file reads back as the same cache.
pub proof fn lemma_build_cache_roundtrip(entries: Seq<(String, BuildCacheEntry)>)
    requires
        table_unique(entries),
    ensures
        parsed_build_cache(build_cache_text(entries)) == build_cache_view(entries),
{
    reveal_strlit("build-v2");
    let head = BUILD_CACHE_VERSION@;
    assert(head == "build-v2"@);
    assert(free_of(head, '\n'));
    lemma_lines_cons(head, build_lines(entries));
    assert(build_cache_text(entries) =~= head + seq!['\n'] + build_lines(entries));
    lemma_build_lines_split(entries);
    assert(strip_cr(head) == head);
    let lines = lines_spec(build_cache_text(entries));
    assert(lines.drop_first() =~= build_bodies(entries));
    lemma_build_bodies_parse(entries);
}

/// A source recorded in the transpilation cache is found again, with the same generated
/// file and fingerprint, once the cache file is read back: a run after an unchanged source
/// reuses what the previous run generated.
pub proof fn lemma_recorded_source_found(entries: Seq<(String, CacheEntry)>, path: Seq<char>)
    requires
        table_unique(entries),
        cache_view(entries).dom().contains(path),
    ensures
        parsed_cache(cache_text(entries)).dom().contains(path),
        parsed_cache(cache_text(entries))[path] == cache_view(entries)[path],
{
    lemma_cache_roundtrip(entries);
}

/// What is written to the transpilation cache file reads back with the same entries in the
/// same order: a cache kept in path order whose map is what the file reads as holds, at each
/// position, the written entry's source path, generated path and fingerprint.
pub proof fn lemma_cache_roundtrip_order(
    entries: Seq<(String, CacheEntry)>,
    read: Seq<(String, CacheEntry)>,
)
    requires
        table_wf(entries, true),
        table_wf(read, true),
        cache_view(read) == parsed_cache(cache_text(entries)),
    ensures
        read.len() == entries.len(),
        forall|i: int|
            0 <= i < read.len() ==> (#[trigger] read[i]).0@ == entries[i].0@ && entry_view(read[i].1)
                == entry_view(entries[i].1),
{
    lemma_cache_roundtrip(entries);
    assert forall|k: Seq<char>| has_key(read, k) <==> has_key(entries, k) by {
        assert(cache_view(read).dom().contains(k) == has_key(read, k));
        assert(cache_view(entries).dom().contains(k) == has_key(entries, k));
    }
    lemma_sorted_same_keys(read, entries, true);
    assert forall|i: int| 0 <= i < read.len() implies (#[trigger] read[i]).0@ == entries[i].0@
        && entry_view(read[i].1) == entry_view(entries[i].1) by {
        lemma_table_view_at(read, i);
        lemma_table_view_at(entries, i);
        let k = read[i].0@;
        assert(cache_view(read)[k] == entry_view(table_view(read)[k]));
        assert(cache_view(entries)[k] == entry_view(table_view(entries)[k]));
    }
}

/// What is written to the build cache file reads back with the same entries in the same
/// order: a build cache kept in key order whose map is what the file reads as holds, at each
/// position, the written entry's key, output path and fingerprint.
pub proof fn lemma_build_cache_roundtrip_order(
    entries: Seq<(String, BuildCacheEntry)>,
    read: Seq<(String, BuildCacheEntry)>,
)
    requires
        table_wf(entries, false),
        table_wf(read, false),
        build_cache_view(read) == parsed_build_cache(build_cache_text(entries)),
    ensures
        read.len() == entries.len(),
        forall|i: int|
            0 <= i < read.len() ==> (#[trigger] read[i]).0@ == entries[i].0@ && build_entry_view(
                read[i].1,
            ) == build_entry_view(entries[i].1),
{
    lemma_build_cache_roundtrip(entries);
    assert forall|k: Seq<char>| has_key(read, k) <==> has_key(entries, k) by {
        assert(build_cache_view(read).dom().contains(k) == has_key(read, k));
        assert(build_cache_view(entries).dom().contains(k) == has_key(entries, k));
    }
    lemma_sorted_same_keys(read, entries, false);
    assert forall|i: int| 0 <= i < read.len() implies (#[trigger] read[i]).0@ == entries[i].0@
        && build_entry_view(read[i].1) == build_entry_view(entries[i].1) by {
        lemma_table_view_at(read, i);
        lemma_table_view_at(entries, i);
        let k = read[i].0@;
        assert(build_cache_view(read)[k] == build_entry_view(table_view(read)[k]));
        assert(build_cache_view(entries)[k] == build_entry_view(table_view(entries)[k]));
    }
}

/// The map that a run of inserts into an empty transpilation cache leaves.
pub open spec fn inserts_view(ops: Seq<(Seq<char>, (Seq<char>, SourceFingerprint))>) -> Map<
    Seq<char>,
    (Seq<char>, SourceFingerprint),
>
    decreases ops.len(),
{
    if ops.len() == 0 {
        Map::empty()
    } else {
        inserts_view(ops.drop_last()).insert(ops.last().0, ops.last().1)
    }
}

/// The entry that the last insert of `path` in a run gave, if any insert was of `path`.
pub open spec fn last_inserted(ops: Seq<(Seq<char>, (Seq<char>, SourceFingerprint))>, path: Seq<char>) -> Option<
    (Seq<char>, SourceFingerprint),
>
    decreases ops.len(),
{
    if ops.len() == 0 {
        None
    } else if ops.last().0 == path {
        Some(ops.last().1)
    } else {
        last_inserted(ops.drop_last(), path)
    }
}

proof fn lemma_inserts_view_last(ops: Seq<(Seq<char>, (Seq<char>, SourceFingerprint))>, path: Seq<char>)
    ensures
        inserts_view(ops).dom().contains(path) <==> last_inserted(ops, path) is Some,
        last_inserted(ops, path) matches Some(e) ==> inserts_view(ops)[path] == e,
    decreases ops.len(),
{
    if ops.len() > 0 {
        lemma_inserts_view_last(ops.drop_last(), path);
    }
}

/// After a run of inserts into an empty cache (each `CacheState::insert` adds its entry to
/// the map, and the entries are kept in path order), the cache lists every inserted path
/// exactly once, in strictly ascending path order, with the entry of its last insert, and
/// nothing else.
pub proof fn lemma_inserts_listing(
    ops: Seq<(Seq<char>, (Seq<char>, SourceFingerprint))>,
    entries: Seq<(String, CacheEntry)>,
)
    requires
        table_wf(entries, true),
        cache_view(entries) == inserts_view(ops),
    ensures
        forall|i: int, j: int|
            0 <= i < j < entries.len() ==> path_lt((#[trigger] entries[i]).0@, (#[trigger] entries[j]).0@),
        forall|i: int|
            0 <= i < entries.len() ==> last_inserted(ops, (#[trigger] entries[i]).0@) == Some(
                entry_view(entries[i].1),
            ),
        forall|p: Seq<char>|
            #[trigger] last_inserted(ops, p) is Some ==> exists|i: int|
                0 <= i < entries.len() && (#[trigger] entries[i]).0@ == p,
{
    assert forall|i: int, j: int| 0 <= i < j < entries.len() implies path_lt(
        (#[trigger] entries[i]).0@,
        (#[trigger] entries[j]).0@,
    ) by {
        lemma_sorted_pair(entries, i, j, true);
    }
    assert forall|i: int| 0 <= i < entries.len() implies last_inserted(
        ops,
        (#[trigger] entries[i]).0@,
    ) == Some(entry_view(entries[i].1)) by {
        let k = entries[i].0@;
        lemma_table_view_at(entries, i);
        lemma_inserts_view_last(ops, k);
        assert(cache_view(entries)[k] == entry_view(table_view(entries)[k]));
    }
    assert forall|p: Seq<char>| #[trigger] last_inserted(ops, p) is Some implies exists|i: int|
        0 <= i < entries.len() && (#[trigger] entries[i]).0@ == p by {
        lemma_inserts_view_last(ops, p);
        assert(cache_view(entries).dom().contains(p));
        assert(has_key(entries, p));
    }
}

} // verus!
