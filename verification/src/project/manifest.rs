//! `zoxi.toml`: reading the package settings, and adding or removing dependency lines while
//! keeping the rest of the file as written.
use crate::text::{chars_eq, chars_of, is_whitespace, is_ws, push_all, push_str, str_eq, string_of};
use crate::project::fields::{find_char, lemma_find_char_bounds, lines_spec, split_lines};
use crate::project::table::{key_less, seq_lt};
use crate::transpiler::compiler::generator::spec::{join, lemma_join_push, replace_all};
use crate::transpiler::compiler::generator::text::replace_chars;
use vstd::prelude::*;

verus! {

// ---------------------------------------------------------------------------------------
// Text pieces.
/// The characters that a trim removes: whitespace, or double quotes.
pub open spec fn trimmed_char(c: char, quotes: bool) -> bool {
    if quotes {
        c == '"'
    } else {
        is_ws(c)
    }
}

pub open spec fn trim_start_spec(s: Seq<char>, quotes: bool) -> Seq<char>
    decreases s.len(),
{
    if s.len() > 0 && trimmed_char(s[0], quotes) {
        trim_start_spec(s.drop_first(), quotes)
    } else {
        s
    }
}

pub open spec fn trim_end_spec(s: Seq<char>, quotes: bool) -> Seq<char>
    decreases s.len(),
{
    if s.len() > 0 && trimmed_char(s.last(), quotes) {
        trim_end_spec(s.drop_last(), quotes)
    } else {
        s
    }
}

/// `str::trim` (whitespace) or `str::trim_matches('"')` (quotes).
pub open spec fn trim_spec(s: Seq<char>, quotes: bool) -> Seq<char> {
    trim_end_spec(trim_start_spec(s, quotes), quotes)
}

/// Trimming never lengthens a text.
pub proof fn lemma_trim_len(s: Seq<char>, quotes: bool)
    ensures
        trim_spec(s, quotes).len() <= s.len(),
{
    lemma_trim_start_len(s, quotes);
    lemma_trim_end_len(trim_start_spec(s, quotes), quotes);
}

proof fn lemma_trim_start_len(s: Seq<char>, quotes: bool)
    ensures
        trim_start_spec(s, quotes).len() <= s.len(),
    decreases s.len(),
{
    if s.len() > 0 && trimmed_char(s[0], quotes) {
        lemma_trim_start_len(s.drop_first(), quotes);
    }
}

proof fn lemma_trim_end_len(s: Seq<char>, quotes: bool)
    ensures
        trim_end_spec(s, quotes).len() <= s.len(),
    decreases s.len(),
{
    if s.len() > 0 && trimmed_char(s.last(), quotes) {
        lemma_trim_end_len(s.drop_last(), quotes);
    }
}

/// The text before the first `#`.
pub open spec fn strip_comment_spec(line: Seq<char>) -> Seq<char> {
    match find_char(line, '#', 0) {
        Some(j) => line.subrange(0, j),
        None => line,
    }
}

/// The text around the first `c`.
pub open spec fn split_once_spec(s: Seq<char>, c: char) -> Option<(Seq<char>, Seq<char>)> {
    match find_char(s, c, 0) {
        Some(j) => Some((s.subrange(0, j), s.subrange(j + 1, s.len() as int))),
        None => None,
    }
}

/// A line that opens a section: `[...]`.
pub open spec fn is_header(t: Seq<char>) -> bool {
    t.len() > 0 && t[0] == '[' && t.last() == ']'
}

/// A line without its comment, trimmed.
pub open spec fn clean(line: Seq<char>) -> Seq<char> {
    trim_spec(strip_comment_spec(line), false)
}

fn trims(c: char, quotes: bool) -> (b: bool)
    ensures
        b == trimmed_char(c, quotes),
{
    if quotes {
        c == '"'
    } else {
        is_whitespace(c)
    }
}

fn trim_range(s: &[char], quotes: bool) -> (r: (usize, usize))
    ensures
        r.0 <= r.1 <= s@.len(),
        s@.subrange(r.0 as int, r.1 as int) == trim_spec(s@, quotes),
{
    let mut i: usize = 0;
    assert(s@.subrange(0, s@.len() as int) =~= s@);
    while i < s.len() && trims(s[i], quotes)
        invariant
            i <= s@.len(),
            trim_start_spec(s@, quotes) == trim_start_spec(s@.subrange(i as int, s@.len() as int), quotes),
        decreases s@.len() - i,
    {
        assert(s@.subrange(i as int, s@.len() as int).drop_first() =~= s@.subrange(
            i + 1,
            s@.len() as int,
        ));
        i += 1;
    }
    let ghost started = s@.subrange(i as int, s@.len() as int);
    assert(trim_start_spec(started, quotes) == started);
    let mut j: usize = s.len();
    while j > i && trims(s[j - 1], quotes)
        invariant
            i <= j <= s@.len(),
            trim_end_spec(started, quotes) == trim_end_spec(s@.subrange(i as int, j as int), quotes),
        decreases j,
    {
        assert(s@.subrange(i as int, j as int).drop_last() =~= s@.subrange(i as int, j - 1));
        j -= 1;
    }
    (i, j)
}

/// `s` trimmed of whitespace (or of double quotes).
pub fn trim_chars(s: &[char], quotes: bool) -> (r: Vec<char>)
    ensures
        r@ == trim_spec(s@, quotes),
        r@.len() <= s@.len(),
{
    let (i, j) = trim_range(s, quotes);
    let mut out: Vec<char> = Vec::new();
    crate::text::push_range(&mut out, s, i, j);
    out
}

fn find_char_in(s: &[char], c: char) -> (r: Option<usize>)
    ensures
        r matches Some(j) ==> find_char(s@, c, 0) == Some(j as int) && j < s@.len(),
        r is None ==> find_char(s@, c, 0) is None,
{
    let mut i: usize = 0;
    proof {
        lemma_find_char_bounds(s@, c, 0);
    }
    while i < s.len()
        invariant
            i <= s@.len(),
            find_char(s@, c, 0) == find_char(s@, c, i as int),
        decreases s@.len() - i,
    {
        if s[i] == c {
            return Some(i);
        }
        i += 1;
    }
    None
}

/// The text before the first `#`.
pub fn strip_comment(line: &[char]) -> (r: Vec<char>)
    ensures
        r@ == strip_comment_spec(line@),
{
    let mut out: Vec<char> = Vec::new();
    match find_char_in(line, '#') {
        Some(j) => crate::text::push_range(&mut out, line, 0, j),
        None => push_all(&mut out, line),
    }
    out
}

pub fn split_once(s: &[char], c: char) -> (r: Option<(Vec<char>, Vec<char>)>)
    ensures
        r matches Some((a, b)) ==> split_once_spec(s@, c) == Some((a@, b@)),
        r is None ==> split_once_spec(s@, c) is None,
{
    match find_char_in(s, c) {
        Some(j) => {
            assert(j < s.len());
            let mut a: Vec<char> = Vec::new();
            let mut b: Vec<char> = Vec::new();
            crate::text::push_range(&mut a, s, 0, j);
            crate::text::push_range(&mut b, s, j + 1, s.len());
            Some((a, b))
        },
        None => None,
    }
}

fn clean_line(line: &[char]) -> (r: Vec<char>)
    ensures
        r@ == clean(line@),
{
    let stripped = strip_comment(line);
    trim_chars(&stripped, false)
}

fn header(t: &[char]) -> (b: bool)
    ensures
        b == is_header(t@),
{
    t.len() > 0 && t[0] == '[' && t[t.len() - 1] == ']'
}

// ---------------------------------------------------------------------------------------
// Dependency lines.
/// The name a dependency line declares: the trimmed text before `=`, on a line that is
/// neither empty nor a header.
pub open spec fn dependency_line_name_spec(line: Seq<char>) -> Option<Seq<char>> {
    let t = clean(line);
    if t.len() == 0 || t[0] == '[' {
        None
    } else {
        match split_once_spec(t, '=') {
            Some((name, _)) => if trim_spec(name, false).len() > 0 {
                Some(trim_spec(name, false))
            } else {
                None
            },
            None => None,
        }
    }
}

pub fn dependency_line_name(line: &[char]) -> (name: Option<Vec<char>>)
    ensures
        name matches Some(n) ==> dependency_line_name_spec(line@) == Some(n@),
        name is None ==> dependency_line_name_spec(line@) is None,
{
    let t = clean_line(line);
    if t.len() == 0 || t[0] == '[' {
        return None;
    }
    match split_once(&t, '=') {
        Some((name, _)) => {
            let trimmed = trim_chars(&name, false);
            if trimmed.len() > 0 {
                Some(trimmed)
            } else {
                None
            }
        },
        None => None,
    }
}

/// The first position of `@` or `=`.
pub open spec fn name_end(s: Seq<char>, i: int) -> int
    decreases s.len() - i,
{
    if i < 0 || i >= s.len() {
        s.len() as int
    } else if s[i] == '@' || s[i] == '=' {
        i
    } else {
        name_end(s, i + 1)
    }
}

/// The package name of a dependency argument: the text before `@` or `=`, trimmed; `None`
/// for an empty argument.
pub open spec fn parse_dependency_name_spec(input: Seq<char>) -> Option<Seq<char>> {
    let t = trim_spec(input, false);
    if t.len() == 0 {
        None
    } else {
        Some(trim_spec(t.subrange(0, name_end(t, 0)), false))
    }
}

proof fn lemma_name_end(s: Seq<char>, i: int)
    requires
        0 <= i <= s.len(),
    ensures
        i <= name_end(s, i) <= s.len(),
    decreases s.len() - i,
{
    if i < s.len() && !(s[i] == '@' || s[i] == '=') {
        lemma_name_end(s, i + 1);
    }
}

pub fn parse_dependency_name(input: &[char]) -> (name: Option<Vec<char>>)
    ensures
        name matches Some(n) ==> parse_dependency_name_spec(input@) == Some(n@),
        name is None ==> parse_dependency_name_spec(input@) is None,
{
    let t = trim_chars(input, false);
    if t.len() == 0 {
        return None;
    }
    let mut i: usize = 0;
    proof {
        lemma_name_end(t@, 0);
    }
    while i < t.len() && t[i] != '@' && t[i] != '='
        invariant
            i <= t@.len(),
            name_end(t@, 0) == name_end(t@, i as int),
        decreases t@.len() - i,
    {
        i += 1;
    }
    let mut head: Vec<char> = Vec::new();
    crate::text::push_range(&mut head, &t, 0, i);
    Some(trim_chars(&head, false))
}

/// A dependency to add: its name and, if given, its version requirement.
pub struct DependencySpec {
    pub name: Vec<char>,
    pub version: Option<Vec<char>>,
}

pub open spec fn opt_chars(v: Option<Vec<char>>) -> Option<Seq<char>> {
    match v {
        Some(x) => Some(x@),
        None => None,
    }
}

pub open spec fn nonempty(s: Seq<char>) -> Option<Seq<char>> {
    if s.len() > 0 {
        Some(s)
    } else {
        None
    }
}

/// `name@version`, `name=version` (quotes around the version dropped) or `name`.
pub open spec fn parse_dependency_spec_spec(input: Seq<char>) -> Option<(Seq<char>, Option<Seq<char>>)> {
    let t = trim_spec(input, false);
    if t.len() == 0 {
        None
    } else {
        match split_once_spec(t, '@') {
            Some((name, version)) => match parse_dependency_name_spec(name) {
                Some(n) => Some((n, nonempty(trim_spec(version, false)))),
                None => None,
            },
            None => match split_once_spec(t, '=') {
                Some((name, version)) => match parse_dependency_name_spec(name) {
                    Some(n) => Some((n, nonempty(trim_spec(trim_spec(version, false), true)))),
                    None => None,
                },
                None => match parse_dependency_name_spec(t) {
                    Some(n) => Some((n, None)),
                    None => None,
                },
            },
        }
    }
}

fn nonempty_chars(v: Vec<char>) -> (r: Option<Vec<char>>)
    ensures
        opt_chars(r) == nonempty(v@),
{
    if v.len() > 0 {
        Some(v)
    } else {
        None
    }
}

pub fn parse_dependency_spec(input: &[char]) -> (spec: Option<DependencySpec>)
    ensures
        spec matches Some(d) ==> parse_dependency_spec_spec(input@) == Some(
            (d.name@, opt_chars(d.version)),
        ),
        spec is None ==> parse_dependency_spec_spec(input@) is None,
{
    let t = trim_chars(input, false);
    if t.len() == 0 {
        return None;
    }
    match split_once(&t, '@') {
        Some((name, version)) => {
            let n = match parse_dependency_name(&name) {
                Some(n) => n,
                None => {
                    return None;
                },
            };
            Some(DependencySpec { name: n, version: nonempty_chars(trim_chars(&version, false)) })
        },
        None => match split_once(&t, '=') {
            Some((name, version)) => {
                let n = match parse_dependency_name(&name) {
                    Some(n) => n,
                    None => {
                        return None;
                    },
                };
                let v = trim_chars(&version, false);
                Some(DependencySpec { name: n, version: nonempty_chars(trim_chars(&v, true)) })
            },
            None => match parse_dependency_name(&t) {
                Some(n) => Some(DependencySpec { name: n, version: None }),
                None => None,
            },
        },
    }
}

/// The line that declares a dependency.
pub open spec fn render_line_spec(name: Seq<char>, version: Option<Seq<char>>) -> Seq<char> {
    match version {
        Some(v) => name + " = \""@ + v + "\""@,
        None => name + " = \"*\""@,
    }
}

impl DependencySpec {
    pub fn render_line(&self) -> (line: Vec<char>)
        ensures
            line@ == render_line_spec(self.name@, opt_chars(self.version)),
    {
        let mut out: Vec<char> = Vec::new();
        push_all(&mut out, &self.name);
        match &self.version {
            Some(v) => {
                push_str(&mut out, " = \"");
                push_all(&mut out, v);
                push_str(&mut out, "\"");
            },
            None => {
                push_str(&mut out, " = \"*\"");
            },
        }
        out
    }
}

// ---------------------------------------------------------------------------------------
// The dependencies section.
/// The first line from `i` whose cleaned text is `[dependencies]`.
pub open spec fn first_section_line(lines: Seq<Seq<char>>, i: int) -> Option<int>
    decreases lines.len() - i,
{
    if i < 0 || i >= lines.len() {
        None
    } else if clean(lines[i]) == "[dependencies]"@ {
        Some(i)
    } else {
        first_section_line(lines, i + 1)
    }
}

/// The first header line from `i`, or the end.
pub open spec fn next_header(lines: Seq<Seq<char>>, i: int) -> int
    decreases lines.len() - i,
{
    if i < 0 || i >= lines.len() {
        lines.len() as int
    } else if is_header(clean(lines[i])) {
        i
    } else {
        next_header(lines, i + 1)
    }
}

/// The lines of the `[dependencies]` section, `start..end`, if there is one.
pub open spec fn section_range(lines: Seq<Seq<char>>) -> Option<(int, int)> {
    match first_section_line(lines, 0) {
        Some(h) => Some((h + 1, next_header(lines, h + 1))),
        None => None,
    }
}

/// The first line of `start..end` that declares `name`.
pub open spec fn find_name(lines: Seq<Seq<char>>, name: Seq<char>, i: int, end: int) -> Option<int>
    decreases end - i,
{
    if i < 0 || i >= end || i >= lines.len() {
        None
    } else if dependency_line_name_spec(lines[i]) == Some(name) {
        Some(i)
    } else {
        find_name(lines, name, i + 1, end)
    }
}

/// The line of the dependencies section that declares `name`.
pub open spec fn find_dependency_line_spec(lines: Seq<Seq<char>>, name: Seq<char>) -> Option<int> {
    match section_range(lines) {
        Some((start, end)) => find_name(lines, name, start, end),
        None => None,
    }
}

proof fn lemma_first_section_line(lines: Seq<Seq<char>>, i: int)
    requires
        0 <= i,
    ensures
        first_section_line(lines, i) matches Some(h) ==> i <= h < lines.len(),
    decreases lines.len() - i,
{
    if i < lines.len() && clean(lines[i]) != "[dependencies]"@ {
        lemma_first_section_line(lines, i + 1);
    }
}

proof fn lemma_next_header(lines: Seq<Seq<char>>, i: int)
    requires
        0 <= i <= lines.len(),
    ensures
        i <= next_header(lines, i) <= lines.len(),
    decreases lines.len() - i,
{
    if i < lines.len() && !is_header(clean(lines[i])) {
        lemma_next_header(lines, i + 1);
    }
}

proof fn lemma_find_name(lines: Seq<Seq<char>>, name: Seq<char>, i: int, end: int)
    requires
        0 <= i,
    ensures
        find_name(lines, name, i, end) matches Some(j) ==> i <= j < end && j < lines.len(),
    decreases end - i,
{
    if i < end && i < lines.len() && dependency_line_name_spec(lines[i]) != Some(name) {
        lemma_find_name(lines, name, i + 1, end);
    }
}

pub open spec fn lines_view(lines: Seq<Vec<char>>) -> Seq<Seq<char>> {
    lines.map_values(|l: Vec<char>| l@)
}

fn dependency_section_range(lines: &Vec<Vec<char>>) -> (r: Option<(usize, usize)>)
    ensures
        r matches Some((s, e)) ==> section_range(lines_view(lines@)) == Some((s as int, e as int))
            && s <= e <= lines@.len(),
        r is None ==> section_range(lines_view(lines@)) is None,
{
    let ghost lv = lines_view(lines@);
    let target = chars_of("[dependencies]");
    let mut i: usize = 0;
    proof {
        lemma_first_section_line(lv, 0);
    }
    while i < lines.len()
        invariant
            i <= lines@.len(),
            lv == lines_view(lines@),
            target@ == "[dependencies]"@,
            first_section_line(lv, 0) == first_section_line(lv, i as int),
        ensures
            i <= lines@.len(),
            first_section_line(lv, 0) == first_section_line(lv, i as int),
            i < lines@.len() ==> clean(lv[i as int]) == "[dependencies]"@,
        decreases lines@.len() - i,
    {
        let t = clean_line(&lines[i]);
        assert(lv[i as int] == lines@[i as int]@);
        if chars_eq(&t, &target) {
            break;
        }
        i += 1;
    }
    if i == lines.len() {
        return None;
    }
    let start = i + 1;
    let mut j = start;
    proof {
        lemma_next_header(lv, start as int);
    }
    while j < lines.len()
        invariant
            start <= j <= lines@.len(),
            lv == lines_view(lines@),
            next_header(lv, start as int) == next_header(lv, j as int),
        ensures
            start <= j <= lines@.len(),
            next_header(lv, start as int) == next_header(lv, j as int),
            j < lines@.len() ==> is_header(clean(lv[j as int])),
        decreases lines@.len() - j,
    {
        let t = clean_line(&lines[j]);
        assert(lv[j as int] == lines@[j as int]@);
        if header(&t) {
            break;
        }
        j += 1;
    }
    Some((start, j))
}

fn find_dependency_line(lines: &Vec<Vec<char>>, name: &[char]) -> (r: Option<usize>)
    ensures
        r matches Some(i) ==> find_dependency_line_spec(lines_view(lines@), name@) == Some(
            i as int,
        ) && i < lines@.len(),
        r is None ==> find_dependency_line_spec(lines_view(lines@), name@) is None,
{
    let ghost lv = lines_view(lines@);
    let range = dependency_section_range(lines);
    let (start, end) = match range {
        Some(range) => range,
        None => {
            return None;
        },
    };
    assert(section_range(lv) == Some((start as int, end as int)));
    assert(find_dependency_line_spec(lv, name@) == find_name(lv, name@, start as int, end as int));
    let mut i = start;
    proof {
        lemma_find_name(lv, name@, start as int, end as int);
    }
    while i < end
        invariant
            start <= i <= end <= lines@.len(),
            lv == lines_view(lines@),
            find_dependency_line_spec(lv, name@) == find_name(lv, name@, start as int, end as int),
            find_name(lv, name@, start as int, end as int) == find_name(
                lv,
                name@,
                i as int,
                end as int,
            ),
        decreases end - i,
    {
        assert(lv[i as int] == lines@[i as int]@);
        match dependency_line_name(&lines[i]) {
            Some(n) => {
                if chars_eq(&n, name) {
                    assert(dependency_line_name_spec(lv[i as int]) == Some(name@));
                    assert(find_name(lv, name@, i as int, end as int) == Some(i as int));
                    return Some(i);
                }
            },
            None => {},
        }
        i += 1;
    }
    None
}

// ---------------------------------------------------------------------------------------
// Adding dependencies.
/// The first line of `i..end` that declares a name after `name`, or `end` when there is
/// none.
pub open spec fn insert_position(lines: Seq<Seq<char>>, name: Seq<char>, i: int, end: int) -> int
    decreases end - i,
{
    if i < 0 || i >= end || i >= lines.len() {
        end
    } else if dependency_line_name_spec(lines[i]) matches Some(n) && seq_lt(name, n) {
        i
    } else {
        insert_position(lines, name, i + 1, end)
    }
}

proof fn lemma_insert_position(lines: Seq<Seq<char>>, name: Seq<char>, i: int, end: int)
    requires
        0 <= i <= end <= lines.len(),
    ensures
        i <= insert_position(lines, name, i, end) <= end,
    decreases end - i,
{
    if i < end {
        lemma_insert_position(lines, name, i + 1, end);
    }
}

/// One dependency added: its line replaces the line of the same name in the
/// `[dependencies]` section, or goes into that section before the first line that declares a
/// greater name, or at the section's end (at `at` when there is no section).
pub open spec fn apply_dependency(
    lines: Seq<Seq<char>>,
    at: int,
    dep: (Seq<char>, Option<Seq<char>>),
) -> Seq<Seq<char>> {
    let rendered = render_line_spec(dep.0, dep.1);
    match find_dependency_line_spec(lines, dep.0) {
        Some(i) => lines.update(i, rendered),
        None => match section_range(lines) {
            Some((start, end)) => lines.insert(insert_position(lines, dep.0, start, end), rendered),
            None => lines.insert(at, rendered),
        },
    }
}

pub open spec fn apply_dependencies(
    lines: Seq<Seq<char>>,
    at: int,
    deps: Seq<(Seq<char>, Option<Seq<char>>)>,
) -> Seq<Seq<char>>
    decreases deps.len(),
{
    if deps.len() == 0 {
        lines
    } else {
        apply_dependency(apply_dependencies(lines, at, deps.drop_last()), at, deps.last())
    }
}

/// `d` placed after every dependency whose name is not greater: the step of a stable sort.
pub open spec fn insert_sorted(
    sorted: Seq<(Seq<char>, Option<Seq<char>>)>,
    d: (Seq<char>, Option<Seq<char>>),
) -> Seq<(Seq<char>, Option<Seq<char>>)> {
    sorted.insert(sorted_slot(sorted, d.0, 0), d)
}

/// The first position from `i` whose name is greater than `name`, or the end.
pub open spec fn sorted_slot(sorted: Seq<(Seq<char>, Option<Seq<char>>)>, name: Seq<char>, i: int) -> int
    decreases sorted.len() - i,
{
    if i < 0 || i >= sorted.len() {
        sorted.len() as int
    } else if seq_lt(name, sorted[i].0) {
        i
    } else {
        sorted_slot(sorted, name, i + 1)
    }
}

proof fn lemma_sorted_slot(sorted: Seq<(Seq<char>, Option<Seq<char>>)>, name: Seq<char>, i: int)
    requires
        0 <= i <= sorted.len(),
    ensures
        i <= sorted_slot(sorted, name, i) <= sorted.len(),
    decreases sorted.len() - i,
{
    if i < sorted.len() && !seq_lt(name, sorted[i].0) {
        lemma_sorted_slot(sorted, name, i + 1);
    }
}

/// The dependencies sorted by name, equal names kept in their order.
pub open spec fn sort_by_name(deps: Seq<(Seq<char>, Option<Seq<char>>)>) -> Seq<
    (Seq<char>, Option<Seq<char>>),
>
    decreases deps.len(),
{
    if deps.len() == 0 {
        seq![]
    } else {
        insert_sorted(sort_by_name(deps.drop_last()), deps.last())
    }
}

/// Why an `add` argument is refused: it is empty, or its name is.
pub open spec fn spec_error(package: Seq<char>) -> Seq<char> {
    if trim_spec(package, false).len() == 0 {
        "dependency specification cannot be empty"@
    } else {
        "dependency name cannot be empty"@
    }
}

/// The parsed dependency arguments, or why the first refused one is refused.
pub open spec fn parse_all(packages: Seq<Seq<char>>) -> Result<Seq<(Seq<char>, Option<Seq<char>>)>, Seq<char>>
    decreases packages.len(),
{
    if packages.len() == 0 {
        Ok(seq![])
    } else {
        match parse_all(packages.drop_last()) {
            Err(e) => Err(e),
            Ok(init) => match parse_dependency_spec_spec(packages.last()) {
                Some(d) => Ok(init.push(d)),
                None => Err(spec_error(packages.last())),
            },
        }
    }
}

/// The lines with a `[dependencies]` section, and where new dependencies go: the end of the
/// section, or after a new section header at the end of the file.
pub open spec fn prepared(lines: Seq<Seq<char>>) -> (Seq<Seq<char>>, int) {
    match section_range(lines) {
        Some((_, end)) => (lines, end),
        None => {
            let spaced = if lines.len() > 0 && lines.last().len() > 0 {
                lines.push(seq![])
            } else {
                lines
            };
            let with_header = spaced.push("[dependencies]"@);
            (with_header, with_header.len() as int)
        },
    }
}

/// Lines joined by newlines, with a final newline.
pub open spec fn text_of_lines(lines: Seq<Seq<char>>) -> Seq<char> {
    let joined = join(lines, "\n"@);
    if joined.len() > 0 && joined.last() == '\n' {
        joined
    } else {
        joined + "\n"@
    }
}

/// What `add_dependencies` makes of a manifest.
pub open spec fn added(content: Seq<char>, packages: Seq<Seq<char>>) -> Result<Seq<char>, Seq<char>> {
    if packages.len() == 0 {
        Err("add requires at least one package"@)
    } else {
        match parse_all(packages) {
            Err(e) => Err(e),
            Ok(deps) => {
                let (lines, at) = prepared(lines_spec(content));
                Ok(text_of_lines(apply_dependencies(lines, at, sort_by_name(deps))))
            },
        }
    }
}

pub open spec fn strings_seq(v: Seq<String>) -> Seq<Seq<char>> {
    v.map_values(|s: String| s@)
}

pub open spec fn deps_view(v: Seq<DependencySpec>) -> Seq<(Seq<char>, Option<Seq<char>>)> {
    v.map_values(|d: DependencySpec| (d.name@, opt_chars(d.version)))
}

fn parse_packages(packages: &Vec<String>) -> (r: Result<Vec<DependencySpec>, String>)
    ensures
        r matches Ok(v) ==> parse_all(strings_seq(packages@)) == Ok::<
            Seq<(Seq<char>, Option<Seq<char>>)>,
            Seq<char>,
        >(deps_view(v@)),
        r matches Err(m) ==> parse_all(strings_seq(packages@)) == Err::<
            Seq<(Seq<char>, Option<Seq<char>>)>,
            Seq<char>,
        >(m@),
{
    let ghost ps = strings_seq(packages@);
    let mut out: Vec<DependencySpec> = Vec::new();
    let mut i: usize = 0;
    assert(ps.take(0) =~= Seq::<Seq<char>>::empty());
    assert(deps_view(out@) =~= Seq::<(Seq<char>, Option<Seq<char>>)>::empty());
    while i < packages.len()
        invariant
            i <= packages@.len(),
            ps == strings_seq(packages@),
            parse_all(ps.take(i as int)) == Ok::<Seq<(Seq<char>, Option<Seq<char>>)>, Seq<char>>(
                deps_view(out@),
            ),
        decreases packages@.len() - i,
    {
        assert(ps.take(i + 1).drop_last() =~= ps.take(i as int));
        assert(ps.take(i + 1).last() == packages@[i as int]@);
        let p = chars_of(packages[i].as_str());
        match parse_dependency_spec(&p) {
            Some(d) => {
                let ghost before = deps_view(out@);
                out.push(d);
                assert(deps_view(out@) =~= before.push((d.name@, opt_chars(d.version))));
            },
            None => {
                let t = trim_chars(&p, false);
                let message = if t.len() == 0 {
                    String::from_str("dependency specification cannot be empty")
                } else {
                    String::from_str("dependency name cannot be empty")
                };
                proof {
                    lemma_parse_all_prefix(ps, i + 1);
                }
                return Err(message);
            },
        }
        i += 1;
    }
    assert(ps.take(i as int) =~= ps);
    Ok(out)
}

proof fn lemma_parse_all_prefix(ps: Seq<Seq<char>>, j: int)
    requires
        0 <= j <= ps.len(),
        parse_all(ps.take(j)) is Err,
    ensures
        parse_all(ps) == parse_all(ps.take(j)),
    decreases ps.len(),
{
    if j < ps.len() {
        assert(ps.drop_last().take(j) =~= ps.take(j));
        lemma_parse_all_prefix(ps.drop_last(), j);
    } else {
        assert(ps.take(j) =~= ps);
    }
}

/// Sorts dependencies by name, keeping equal names in order.
fn sort_dependencies(deps: Vec<DependencySpec>) -> (sorted: Vec<DependencySpec>)
    ensures
        deps_view(sorted@) == sort_by_name(deps_view(deps@)),
{
    let ghost dv = deps_view(deps@);
    let ghost original = deps@;
    let mut sorted: Vec<DependencySpec> = Vec::new();
    let mut rest = deps;
    let total = rest.len();
    let mut n: usize = 0;
    assert(dv.take(0) =~= Seq::<(Seq<char>, Option<Seq<char>>)>::empty());
    assert(deps_view(sorted@) =~= Seq::<(Seq<char>, Option<Seq<char>>)>::empty());
    assert(original.skip(0) =~= original);
    while rest.len() > 0
        invariant
            dv == deps_view(original),
            total == original.len(),
            n <= original.len(),
            rest@ == original.skip(n as int),
            deps_view(sorted@) == sort_by_name(dv.take(n as int)),
        decreases rest@.len(),
    {
        assert(n < original.len());
        let d = rest.remove(0);
        assert(d == original[n as int]);
        assert(original.skip(n as int).drop_first() =~= original.skip(n + 1));
        assert(dv.take(n + 1).drop_last() =~= dv.take(n as int));
        assert(dv.take(n + 1).last() == (d.name@, opt_chars(d.version)));
        let ghost sv = deps_view(sorted@);
        let mut p: usize = 0;
        proof {
            lemma_sorted_slot(sv, d.name@, 0);
        }
        while p < sorted.len()
            invariant
                p <= sorted@.len(),
                sv == deps_view(sorted@),
                sorted_slot(sv, d.name@, 0) == sorted_slot(sv, d.name@, p as int),
            ensures
                p <= sorted@.len(),
                sorted_slot(sv, d.name@, 0) == sorted_slot(sv, d.name@, p as int),
                p < sorted@.len() ==> seq_lt(d.name@, sv[p as int].0),
            decreases sorted@.len() - p,
        {
            if key_less(&d.name, &sorted[p].name) {
                break;
            }
            p += 1;
        }
        let ghost dview = (d.name@, opt_chars(d.version));
        sorted.insert(p, d);
        assert(deps_view(sorted@) =~= sv.insert(p as int, dview));
        n += 1;
    }
    assert(dv.take(n as int) =~= dv);
    sorted
}

/// Adds one dependency to the lines.
fn apply_one(lines: &mut Vec<Vec<char>>, at: usize, dep: &DependencySpec)
    requires
        at <= old(lines)@.len(),
    ensures
        lines_view(final(lines)@) == apply_dependency(
            lines_view(old(lines)@),
            at as int,
            (dep.name@, opt_chars(dep.version)),
        ),
        final(lines)@.len() >= old(lines)@.len(),
{
    let ghost lv = lines_view(lines@);
    let rendered = dep.render_line();
    match find_dependency_line(lines, &dep.name) {
        Some(index) => {
            let _old = lines.remove(index);
            lines.insert(index, rendered);
            assert(lines_view(lines@) =~= lv.update(index as int, rendered@));
        },
        None => {
            let (start, end) = match dependency_section_range(lines) {
                Some(range) => range,
                None => {
                    lines.insert(at, rendered);
                    assert(lines_view(lines@) =~= lv.insert(at as int, rendered@));
                    return;
                },
            };
            let mut p = start;
            proof {
                lemma_insert_position(lv, dep.name@, start as int, end as int);
            }
            while p < end
                invariant
                    start <= p <= end <= lines@.len(),
                    lv == lines_view(lines@),
                    insert_position(lv, dep.name@, start as int, end as int) == insert_position(
                        lv,
                        dep.name@,
                        p as int,
                        end as int,
                    ),
                ensures
                    start <= p <= end <= lines@.len(),
                    insert_position(lv, dep.name@, start as int, end as int) == p,
                decreases end - p,
            {
                assert(lv[p as int] == lines@[p as int]@);
                match dependency_line_name(&lines[p]) {
                    Some(n) => {
                        if key_less(&dep.name, &n) {
                            break;
                        }
                    },
                    None => {},
                }
                p += 1;
            }
            lines.insert(p, rendered);
            assert(lines_view(lines@) =~= lv.insert(p as int, rendered@));
        },
    }
}

/// Lines joined by newlines, with a final newline.
fn join_lines(lines: &Vec<Vec<char>>) -> (text: String)
    ensures
        text@ == text_of_lines(lines_view(lines@)),
{
    let ghost lv = lines_view(lines@);
    let mut out: Vec<char> = Vec::new();
    let mut i: usize = 0;
    assert(lv.take(0) =~= Seq::<Seq<char>>::empty());
    while i < lines.len()
        invariant
            i <= lines@.len(),
            lv == lines_view(lines@),
            out@ == join(lv.take(i as int), "\n"@),
        decreases lines@.len() - i,
    {
        proof {
            lemma_join_push(lv.take(i as int), lv[i as int], "\n"@);
            assert(lv.take(i + 1) =~= lv.take(i as int).push(lv[i as int]));
        }
        if i > 0 {
            push_str(&mut out, "\n");
        }
        push_all(&mut out, &lines[i]);
        i += 1;
    }
    assert(lv.take(i as int) =~= lv);
    if !(out.len() > 0 && out[out.len() - 1] == '\n') {
        push_str(&mut out, "\n");
    }
    string_of(&out)
}

/// Adds (or updates) dependency lines in the text of a manifest: each argument is `name`,
/// `name@version` or `name=version`; the lines are sorted by name into the
/// `[dependencies]` section, which is created at the end when missing.
pub fn add_dependencies(content: &str, packages: &Vec<String>) -> (r: Result<String, String>)
    ensures
        match r {
            Ok(text) => added(content@, strings_seq(packages@)) == Ok::<Seq<char>, Seq<char>>(text@),
            Err(message) => added(content@, strings_seq(packages@)) == Err::<Seq<char>, Seq<char>>(
                message@,
            ),
        },
{
    if packages.len() == 0 {
        return Err(String::from_str("add requires at least one package"));
    }
    let text = chars_of(content);
    let mut lines = split_lines(&text);
    let ghost original = lines_view(lines@);
    assert(original == lines_spec(content@));
    let at = match dependency_section_range(&lines) {
        Some((_, end)) => end,
        None => {
            if lines.len() > 0 && lines[lines.len() - 1].len() > 0 {
                lines.push(Vec::new());
            }
            lines.push(chars_of("[dependencies]"));
            lines.len()
        },
    };
    assert(prepared(original) == (lines_view(lines@), at as int)) by {
        if section_range(original) is None {
            assert(lines_view(lines@) =~= prepared(original).0);
        }
    }
    let deps = match parse_packages(packages) {
        Ok(deps) => deps,
        Err(m) => {
            return Err(m);
        },
    };
    let sorted = sort_dependencies(deps);
    let ghost sv = deps_view(sorted@);
    let ghost start = lines_view(lines@);
    let mut i: usize = 0;
    assert(sv.take(0) =~= Seq::<(Seq<char>, Option<Seq<char>>)>::empty());
    while i < sorted.len()
        invariant
            i <= sorted@.len(),
            sv == deps_view(sorted@),
            at <= lines@.len(),
            lines_view(lines@) == apply_dependencies(start, at as int, sv.take(i as int)),
        decreases sorted@.len() - i,
    {
        assert(sv.take(i + 1).drop_last() =~= sv.take(i as int));
        assert(sv.take(i + 1).last() == (sorted@[i as int].name@, opt_chars(sorted@[i as int].version)));
        apply_one(&mut lines, at, &sorted[i]);
        i += 1;
    }
    assert(sv.take(i as int) =~= sv);
    Ok(join_lines(&lines))
}

} // verus!

verus! {

// ---------------------------------------------------------------------------------------
// Removing dependencies.
/// The package names of `remove` arguments, `None` if one of them is empty.
pub open spec fn parse_names(packages: Seq<Seq<char>>) -> Option<Seq<Seq<char>>>
    decreases packages.len(),
{
    if packages.len() == 0 {
        Some(seq![])
    } else {
        match (parse_names(packages.drop_last()), parse_dependency_name_spec(packages.last())) {
            (Some(init), Some(n)) => Some(init.push(n)),
            _ => None,
        }
    }
}

/// A line that declares none of `names`.
pub open spec fn kept_line(line: Seq<char>, names: Seq<Seq<char>>) -> bool {
    match dependency_line_name_spec(line) {
        Some(n) => !names.contains(n),
        None => true,
    }
}

/// The lines that declare none of `names`, in order.
pub open spec fn filtered(lines: Seq<Seq<char>>, names: Seq<Seq<char>>) -> Seq<Seq<char>> {
    lines.filter(|line: Seq<char>| kept_line(line, names))
}

/// The lines `start..end` of the `[dependencies]` section; both the end of the text when
/// there is no such section.
pub open spec fn section_bounds(lines: Seq<Seq<char>>) -> (int, int) {
    match section_range(lines) {
        Some(range) => range,
        None => (lines.len() as int, lines.len() as int),
    }
}

/// The lines with those of the `[dependencies]` section that declare one of `names` left
/// out; the lines of other sections are kept as they are.
pub open spec fn kept_lines(lines: Seq<Seq<char>>, names: Seq<Seq<char>>) -> Seq<Seq<char>> {
    let (start, end) = section_bounds(lines);
    lines.subrange(0, start) + filtered(lines.subrange(start, end), names) + lines.subrange(
        end,
        lines.len() as int,
    )
}

/// What the removal loop has kept of the first `k` lines.
pub open spec fn kept_prefix(lines: Seq<Seq<char>>, start: int, end: int, k: int, names: Seq<Seq<char>>) -> Seq<Seq<char>> {
    if k <= start {
        lines.take(k)
    } else if k <= end {
        lines.take(start) + filtered(lines.subrange(start, k), names)
    } else {
        lines.take(start) + filtered(lines.subrange(start, end), names) + lines.subrange(end, k)
    }
}

/// Lines joined by newlines, each ended by one; nothing for no line text.
pub open spec fn text_of_kept(lines: Seq<Seq<char>>) -> Seq<char> {
    let joined = join(lines, "\n"@);
    if joined.len() == 0 {
        seq![]
    } else {
        joined + "\n"@
    }
}

/// What `remove_dependencies` makes of a manifest.
pub open spec fn removed(content: Seq<char>, packages: Seq<Seq<char>>) -> Result<Seq<char>, Seq<char>> {
    if packages.len() == 0 {
        Err("remove requires at least one package"@)
    } else {
        match parse_names(packages) {
            None => Err("dependency name cannot be empty"@),
            Some(names) => Ok(text_of_kept(kept_lines(lines_spec(content), names))),
        }
    }
}

proof fn lemma_parse_names_prefix(ps: Seq<Seq<char>>, j: int)
    requires
        0 <= j <= ps.len(),
        parse_names(ps.take(j)) is None,
    ensures
        parse_names(ps) is None,
    decreases ps.len(),
{
    if j < ps.len() {
        assert(ps.drop_last().take(j) =~= ps.take(j));
        lemma_parse_names_prefix(ps.drop_last(), j);
    } else {
        assert(ps.take(j) =~= ps);
    }
}

fn contains_name(names: &Vec<Vec<char>>, name: &[char]) -> (b: bool)
    ensures
        b == lines_view(names@).contains(name@),
{
    let mut i: usize = 0;
    while i < names.len()
        invariant
            i <= names@.len(),
            forall|j: int| 0 <= j < i ==> lines_view(names@)[j] != name@,
        decreases names@.len() - i,
    {
        if chars_eq(&names[i], name) {
            assert(lines_view(names@)[i as int] == name@);
            return true;
        }
        i += 1;
    }
    false
}

/// Removes the dependency lines that declare any of the given packages (a version after
/// `@` or `=` is ignored); every other line stays as written.
pub fn remove_dependencies(content: &str, packages: &Vec<String>) -> (r: Result<String, String>)
    ensures
        match r {
            Ok(text) => removed(content@, strings_seq(packages@)) == Ok::<Seq<char>, Seq<char>>(
                text@,
            ),
            Err(message) => removed(content@, strings_seq(packages@)) == Err::<
                Seq<char>,
                Seq<char>,
            >(message@),
        },
{
    if packages.len() == 0 {
        return Err(String::from_str("remove requires at least one package"));
    }
    let ghost ps = strings_seq(packages@);
    let mut names: Vec<Vec<char>> = Vec::new();
    let mut i: usize = 0;
    assert(ps.take(0) =~= Seq::<Seq<char>>::empty());
    assert(lines_view(names@) =~= Seq::<Seq<char>>::empty());
    while i < packages.len()
        invariant
            i <= packages@.len(),
            ps == strings_seq(packages@),
            parse_names(ps.take(i as int)) == Some(lines_view(names@)),
        decreases packages@.len() - i,
    {
        assert(ps.take(i + 1).drop_last() =~= ps.take(i as int));
        assert(ps.take(i + 1).last() == packages@[i as int]@);
        let p = chars_of(packages[i].as_str());
        match parse_dependency_name(&p) {
            Some(n) => {
                let ghost before = lines_view(names@);
                names.push(n);
                assert(lines_view(names@) =~= before.push(n@));
            },
            None => {
                proof {
                    lemma_parse_names_prefix(ps, i + 1);
                }
                return Err(String::from_str("dependency name cannot be empty"));
            },
        }
        i += 1;
    }
    assert(ps.take(i as int) =~= ps);
    let ghost nv = lines_view(names@);
    let text = chars_of(content);
    let lines = split_lines(&text);
    let ghost lv = lines_view(lines@);
    let (start, end) = match dependency_section_range(&lines) {
        Some(range) => range,
        None => (lines.len(), lines.len()),
    };
    assert(section_bounds(lv) == (start as int, end as int));
    let mut kept: Vec<Vec<char>> = Vec::new();
    let mut k: usize = 0;
    assert(lv.take(0) =~= Seq::<Seq<char>>::empty());
    assert(lines_view(kept@) =~= Seq::<Seq<char>>::empty());
    while k < lines.len()
        invariant
            k <= lines@.len(),
            start <= end <= lines@.len(),
            lv == lines_view(lines@),
            nv == lines_view(names@),
            lines_view(kept@) == kept_prefix(lv, start as int, end as int, k as int, nv),
        decreases lines@.len() - k,
    {
        assert(lv[k as int] == lines@[k as int]@);
        let keep = if start <= k && k < end {
            match dependency_line_name(&lines[k]) {
                Some(n) => !contains_name(&names, &n),
                None => true,
            }
        } else {
            true
        };
        let ghost before = lines_view(kept@);
        proof {
            lemma_kept_prefix_step(lv, start as int, end as int, k as int, nv);
        }
        if keep {
            let mut copy: Vec<char> = Vec::new();
            push_all(&mut copy, &lines[k]);
            kept.push(copy);
            assert(lines_view(kept@) =~= before.push(lv[k as int]));
        }
        k += 1;
    }
    assert(kept_prefix(lv, start as int, end as int, k as int, nv) =~= kept_lines(lv, nv)) by {
        if start == k {
            assert(lv.subrange(start as int, end as int) =~= Seq::<Seq<char>>::empty());
            assert(filtered(Seq::<Seq<char>>::empty(), nv) =~= Seq::<Seq<char>>::empty()) by {
                reveal(Seq::filter);
            }
            assert(lv.subrange(end as int, lv.len() as int) =~= Seq::<Seq<char>>::empty());
        } else if end == k {
            assert(lv.subrange(end as int, lv.len() as int) =~= Seq::<Seq<char>>::empty());
        }
    }
    let mut out: Vec<char> = Vec::new();
    let mut j: usize = 0;
    let ghost kv = lines_view(kept@);
    assert(kv.take(0) =~= Seq::<Seq<char>>::empty());
    while j < kept.len()
        invariant
            j <= kept@.len(),
            kv == lines_view(kept@),
            out@ == join(kv.take(j as int), "\n"@),
        decreases kept@.len() - j,
    {
        proof {
            lemma_join_push(kv.take(j as int), kv[j as int], "\n"@);
            assert(kv.take(j + 1) =~= kv.take(j as int).push(kv[j as int]));
        }
        if j > 0 {
            push_str(&mut out, "\n");
        }
        push_all(&mut out, &kept[j]);
        j += 1;
    }
    assert(kv.take(j as int) =~= kv);
    if out.len() > 0 {
        push_str(&mut out, "\n");
    }
    assert(lv == lines_spec(content@));
    assert(parse_names(ps) == Some(nv));
    assert(kv == kept_lines(lines_spec(content@), nv));
    assert(out@ == text_of_kept(kv));
    Ok(string_of(&out))
}

proof fn lemma_filter_push(lines: Seq<Seq<char>>, line: Seq<char>, names: Seq<Seq<char>>)
    ensures
        filtered(lines.push(line), names) == if kept_line(line, names) {
            filtered(lines, names).push(line)
        } else {
            filtered(lines, names)
        },
{
    reveal(Seq::filter);
    assert(lines.push(line).drop_last() =~= lines);
}

/// One more line seen by the removal loop: kept unless it is a section line that declares
/// one of `names`.
proof fn lemma_kept_prefix_step(lines: Seq<Seq<char>>, start: int, end: int, k: int, names: Seq<Seq<char>>)
    requires
        0 <= start <= end <= lines.len(),
        0 <= k < lines.len(),
    ensures
        kept_prefix(lines, start, end, k + 1, names) == if start <= k < end && !kept_line(
            lines[k],
            names,
        ) {
            kept_prefix(lines, start, end, k, names)
        } else {
            kept_prefix(lines, start, end, k, names).push(lines[k])
        },
{
    if k < start {
        assert(lines.take(k + 1) =~= lines.take(k).push(lines[k]));
    } else if k < end {
        assert(lines.subrange(start, k + 1) =~= lines.subrange(start, k).push(lines[k]));
        lemma_filter_push(lines.subrange(start, k), lines[k], names);
        if k == start {
            assert(lines.subrange(start, k) =~= Seq::<Seq<char>>::empty());
            assert(filtered(Seq::<Seq<char>>::empty(), names) =~= Seq::<Seq<char>>::empty()) by {
                reveal(Seq::filter);
            }
            assert(lines.take(start) + Seq::<Seq<char>>::empty() =~= lines.take(k));
        }
    } else {
        assert(lines.subrange(end, k + 1) =~= lines.subrange(end, k).push(lines[k]));
        if k == end {
            assert(lines.subrange(end, k) =~= Seq::<Seq<char>>::empty());
        }
    }
}

/// After a removal no line that stood in the `[dependencies]` section declares a removed
/// package, and the lines before and after that section are kept as they were.
pub proof fn lemma_removed_absent(lines: Seq<Seq<char>>, names: Seq<Seq<char>>)
    ensures
        ({
            let (start, end) = section_bounds(lines);
            let section = filtered(lines.subrange(start, end), names);
            let kept = kept_lines(lines, names);
            &&& kept.subrange(0, start) == lines.subrange(0, start)
            &&& kept.subrange(start, start + section.len()) == section
            &&& kept.subrange(start + section.len(), kept.len() as int) == lines.subrange(
                end,
                lines.len() as int,
            )
            &&& forall|i: int| 0 <= i < section.len() ==> kept_line(#[trigger] section[i], names)
        }),
{
    let (start, end) = section_bounds(lines);
    assert(0 <= start <= end <= lines.len()) by {
        lemma_first_section_line(lines, 0);
        match first_section_line(lines, 0) {
            Some(h) => lemma_next_header(lines, h + 1),
            None => {},
        }
    }
    let section = filtered(lines.subrange(start, end), names);
    let kept = kept_lines(lines, names);
    assert(kept.subrange(0, start) =~= lines.subrange(0, start));
    assert(kept.subrange(start, start + section.len()) =~= section);
    assert(kept.subrange(start + section.len(), kept.len() as int) =~= lines.subrange(
        end,
        lines.len() as int,
    ));
    assert forall|i: int| 0 <= i < section.len() implies kept_line(#[trigger] section[i], names) by {
        lines.subrange(start, end).lemma_filter_pred(|line: Seq<char>| kept_line(line, names), i);
    }
}

/// A line that declares none of the names `names[0]`, ..., `names[len - 1]`.
pub open spec fn declares_none(line: Seq<char>, names: Seq<Seq<char>>) -> bool {
    forall|j: int| 0 <= j < names.len() ==> dependency_line_name_spec(line) != Some(#[trigger] names[j])
}

proof fn lemma_parse_names_each(packages: Seq<Seq<char>>, names: Seq<Seq<char>>)
    requires
        parse_names(packages) == Some(names),
    ensures
        names.len() == packages.len(),
        forall|j: int| 0 <= j < packages.len() ==> parse_dependency_name_spec(#[trigger] packages[j]) == Some(names[j]),
    decreases packages.len(),
{
    if packages.len() > 0 {
        let init = parse_names(packages.drop_last()).unwrap();
        lemma_parse_names_each(packages.drop_last(), init);
        assert forall|j: int| 0 <= j < packages.len() implies parse_dependency_name_spec(
            #[trigger] packages[j],
        ) == Some(names[j]) by {
            if j < packages.len() - 1 {
                assert(packages.drop_last()[j] == packages[j]);
            }
        }
    }
}

/// Removing `packages`, whose names parse as `names`: name `j` is the name of package `j`;
/// no line left in the `[dependencies]` section declares the name of any of the packages,
/// not only the first; and the section keeps, in order, exactly those of its lines that
/// declare none of the names.
pub proof fn lemma_removed_every_package(lines: Seq<Seq<char>>, packages: Seq<Seq<char>>, names: Seq<Seq<char>>)
    requires
        parse_names(packages) == Some(names),
    ensures
        names.len() == packages.len(),
        forall|j: int| 0 <= j < packages.len() ==> parse_dependency_name_spec(#[trigger] packages[j]) == Some(names[j]),
        ({
            let (start, end) = section_bounds(lines);
            let section = filtered(lines.subrange(start, end), names);
            &&& section == lines.subrange(start, end).filter(|line: Seq<char>| declares_none(line, names))
            &&& forall|i: int, j: int|
                0 <= i < section.len() && 0 <= j < packages.len() ==> dependency_line_name_spec(
                    #[trigger] section[i],
                ) != parse_dependency_name_spec(#[trigger] packages[j])
        }),
{
    lemma_parse_names_each(packages, names);
    let (start, end) = section_bounds(lines);
    let section = filtered(lines.subrange(start, end), names);
    let keep = |line: Seq<char>| kept_line(line, names);
    let none = |line: Seq<char>| declares_none(line, names);
    assert forall|line: Seq<char>| #[trigger] keep(line) == none(line) by {
        match dependency_line_name_spec(line) {
            Some(n) => {
                if names.contains(n) {
                    let j = choose|j: int| 0 <= j < names.len() && names[j] == n;
                    assert(!declares_none(line, names));
                }
            },
            None => {},
        }
    }
    assert(keep =~= none);
    assert(section == lines.subrange(start, end).filter(none));
    assert forall|i: int, j: int|
        0 <= i < section.len() && 0 <= j < packages.len() implies dependency_line_name_spec(
        #[trigger] section[i],
    ) != parse_dependency_name_spec(#[trigger] packages[j]) by {
        lines.subrange(start, end).lemma_filter_pred(none, i);
        assert(none(section[i]));
        assert(names[j] == names[j]);
    }
}

// ---------------------------------------------------------------------------------------
// Reading the package settings.
/// The settings of a project as `zoxi.toml` gives them.
#[derive(Clone, Debug)]
pub struct ProjectManifest {
    pub package_name: String,
    pub edition: String,
    pub dependency_section: String,
}

impl ProjectManifest {
    pub fn package_name(&self) -> (name: &str)
        ensures
            name@ == self.package_name@,
    {
        self.package_name.as_str()
    }

    /// The package name with `-` turned into `_`.
    pub fn crate_name(&self) -> (name: String)
        ensures
            name@ == replace_all(self.package_name@, "-"@, "_"@),
    {
        let s = chars_of(self.package_name.as_str());
        let from = chars_of("-");
        let to = chars_of("_");
        proof {
            reveal_strlit("-");
        }
        let r = replace_chars(&s, &from, &to);
        string_of(&r)
    }

    pub fn edition(&self) -> (edition: &str)
        ensures
            edition@ == self.edition@,
    {
        self.edition.as_str()
    }

    pub fn dependency_section(&self) -> (section: &str)
        ensures
            section@ == self.dependency_section@,
    {
        self.dependency_section.as_str()
    }
}

/// The editions Rust knows.
pub open spec fn valid_edition(edition: Seq<char>) -> bool {
    edition == "2015"@ || edition == "2018"@ || edition == "2021"@ || edition == "2024"@
}

pub open spec fn edition_error(edition: Seq<char>) -> Seq<char> {
    "unsupported Rust edition `"@ + edition + "` in zoxi.toml"@
}

/// Accepts the editions Rust knows and names any other in the error.
pub fn validate_edition(edition: &[char]) -> (r: Result<(), String>)
    ensures
        r is Ok <==> valid_edition(edition@),
        r matches Err(message) ==> message@ == edition_error(edition@),
{
    let s = string_of(edition);
    if str_eq(s.as_str(), "2015") || str_eq(s.as_str(), "2018") || str_eq(s.as_str(), "2021")
        || str_eq(s.as_str(), "2024") {
        Ok(())
    } else {
        let mut out: Vec<char> = Vec::new();
        push_str(&mut out, "unsupported Rust edition `");
        push_all(&mut out, edition);
        push_str(&mut out, "` in zoxi.toml");
        Err(string_of(&out))
    }
}

/// What the scan of a manifest has found so far.
pub struct ManifestScan {
    pub section: Seq<char>,
    pub name: Option<Seq<char>>,
    pub edition: Option<Seq<char>>,
    pub deps: Seq<Seq<char>>,
}

/// One line of a manifest: a header opens a section; in `[package]`, `name` (when not
/// empty) and `edition` (when valid) are taken; the lines of `[dependencies]` are kept as
/// written, empty ones as empty lines.
pub open spec fn manifest_step(st: ManifestScan, raw: Seq<char>) -> Result<ManifestScan, Seq<char>> {
    let line = clean(raw);
    if line.len() == 0 {
        Ok(
            if st.section == "dependencies"@ {
                ManifestScan { deps: st.deps.push(seq![]), ..st }
            } else {
                st
            },
        )
    } else if is_header(line) {
        Ok(ManifestScan { section: line.subrange(1, line.len() - 1), ..st })
    } else if st.section == "package"@ {
        match split_once_spec(line, '=') {
            None => Ok(st),
            Some((k, v)) => {
                let key = trim_spec(k, false);
                let value = trim_spec(trim_spec(v, false), true);
                if key == "name"@ && value.len() > 0 {
                    Ok(ManifestScan { name: Some(value), ..st })
                } else if key == "edition"@ {
                    if valid_edition(value) {
                        Ok(ManifestScan { edition: Some(value), ..st })
                    } else {
                        Err(edition_error(value))
                    }
                } else {
                    Ok(st)
                }
            },
        }
    } else if st.section == "dependencies"@ {
        Ok(ManifestScan { deps: st.deps.push(raw), ..st })
    } else {
        Ok(st)
    }
}

pub open spec fn manifest_scan(lines: Seq<Seq<char>>) -> Result<ManifestScan, Seq<char>>
    decreases lines.len(),
{
    if lines.len() == 0 {
        Ok(ManifestScan { section: seq![], name: None, edition: None, deps: seq![] })
    } else {
        match manifest_scan(lines.drop_last()) {
            Ok(st) => manifest_step(st, lines.last()),
            Err(e) => Err(e),
        }
    }
}

/// The settings of a manifest text: the package name (or `default_name`), the edition (or
/// 2024) and the lines of the dependencies section; an unknown edition is an error.
pub open spec fn parsed_manifest(content: Seq<char>, default_name: Seq<char>) -> Result<
    (Seq<char>, Seq<char>, Seq<char>),
    Seq<char>,
> {
    match manifest_scan(lines_spec(content)) {
        Ok(st) => Ok(
            (
                match st.name {
                    Some(n) => n,
                    None => default_name,
                },
                match st.edition {
                    Some(e) => e,
                    None => "2024"@,
                },
                join(st.deps, "\n"@),
            ),
        ),
        Err(e) => Err(e),
    }
}

pub open spec fn manifest_view(m: ProjectManifest) -> (Seq<char>, Seq<char>, Seq<char>) {
    (m.package_name@, m.edition@, m.dependency_section@)
}

proof fn lemma_manifest_scan_prefix(lines: Seq<Seq<char>>, j: int)
    requires
        0 <= j <= lines.len(),
        manifest_scan(lines.take(j)) is Err,
    ensures
        manifest_scan(lines) == manifest_scan(lines.take(j)),
    decreases lines.len(),
{
    if j < lines.len() {
        assert(lines.drop_last().take(j) =~= lines.take(j));
        lemma_manifest_scan_prefix(lines.drop_last(), j);
    } else {
        assert(lines.take(j) =~= lines);
    }
}

fn copy_chars(v: &[char]) -> (r: Vec<char>)
    ensures
        r@ == v@,
{
    let mut out: Vec<char> = Vec::new();
    push_all(&mut out, v);
    out
}

/// Reads the settings of a manifest text.
pub fn parse_manifest(content: &str, default_name: String) -> (r: Result<ProjectManifest, String>)
    ensures
        match r {
            Ok(m) => parsed_manifest(content@, default_name@) == Ok::<
                (Seq<char>, Seq<char>, Seq<char>),
                Seq<char>,
            >(manifest_view(m)),
            Err(message) => parsed_manifest(content@, default_name@) == Err::<
                (Seq<char>, Seq<char>, Seq<char>),
                Seq<char>,
            >(message@),
        },
{
    let text = chars_of(content);
    let lines = split_lines(&text);
    let ghost lv = lines_view(lines@);
    assert(lv == lines_spec(content@));
    let mut section: Vec<char> = Vec::new();
    let mut name: Option<Vec<char>> = None;
    let mut edition: Option<Vec<char>> = None;
    let mut deps: Vec<Vec<char>> = Vec::new();
    let mut i: usize = 0;
    assert(lv.take(0) =~= Seq::<Seq<char>>::empty());
    assert(lines_view(deps@) =~= Seq::<Seq<char>>::empty());
    while i < lines.len()
        invariant
            i <= lines@.len(),
            lv == lines_view(lines@),
            lv == lines_spec(content@),
            manifest_scan(lv.take(i as int)) == Ok::<ManifestScan, Seq<char>>(
                ManifestScan {
                    section: section@,
                    name: opt_chars(name),
                    edition: opt_chars(edition),
                    deps: lines_view(deps@),
                },
            ),
        decreases lines@.len() - i,
    {
        assert(lv.take(i + 1).drop_last() =~= lv.take(i as int));
        assert(lv.take(i + 1).last() == lv[i as int]);
        assert(lv[i as int] == lines@[i as int]@);
        let ghost st = ManifestScan {
            section: section@,
            name: opt_chars(name),
            edition: opt_chars(edition),
            deps: lines_view(deps@),
        };
        let raw = &lines[i];
        let line = clean_line(raw);
        let in_deps = str_eq(string_of(&section).as_str(), "dependencies");
        let in_package = str_eq(string_of(&section).as_str(), "package");
        if line.len() == 0 {
            if in_deps {
                let ghost before = lines_view(deps@);
                deps.push(Vec::new());
                assert(lines_view(deps@) =~= before.push(seq![]));
            }
        } else if header(&line) {
            let mut inner: Vec<char> = Vec::new();
            crate::text::push_range(&mut inner, &line, 1, line.len() - 1);
            section = inner;
        } else if in_package {
            match split_once(&line, '=') {
                None => {},
                Some((k, v)) => {
                    let key = trim_chars(&k, false);
                    let v1 = trim_chars(&v, false);
                    let value = trim_chars(&v1, true);
                    let key_s = string_of(&key);
                    if str_eq(key_s.as_str(), "name") && value.len() > 0 {
                        name = Some(value);
                    } else if str_eq(key_s.as_str(), "edition") {
                        match validate_edition(&value) {
                            Ok(()) => {
                                edition = Some(value);
                            },
                            Err(message) => {
                                assert(manifest_step(st, lv[i as int]) == Err::<ManifestScan, Seq<char>>(message@));
                                proof {
                                    lemma_manifest_scan_prefix(lv, i + 1);
                                }
                                return Err(message);
                            },
                        }
                    }
                },
            }
        } else if in_deps {
            let ghost before = lines_view(deps@);
            deps.push(copy_chars(raw));
            assert(lines_view(deps@) =~= before.push(lv[i as int]));
        }
        i += 1;
    }
    assert(lv.take(i as int) =~= lv);
    let package_name = match name {
        Some(n) => string_of(&n),
        None => default_name,
    };
    let edition_text = match edition {
        Some(e) => string_of(&e),
        None => String::from_str("2024"),
    };
    let mut joined: Vec<char> = Vec::new();
    let mut j: usize = 0;
    let ghost dv = lines_view(deps@);
    assert(dv.take(0) =~= Seq::<Seq<char>>::empty());
    while j < deps.len()
        invariant
            j <= deps@.len(),
            dv == lines_view(deps@),
            joined@ == join(dv.take(j as int), "\n"@),
        decreases deps@.len() - j,
    {
        proof {
            lemma_join_push(dv.take(j as int), dv[j as int], "\n"@);
            assert(dv.take(j + 1) =~= dv.take(j as int).push(dv[j as int]));
        }
        if j > 0 {
            push_str(&mut joined, "\n");
        }
        push_all(&mut joined, &deps[j]);
        j += 1;
    }
    assert(dv.take(j as int) =~= dv);
    Ok(
        ProjectManifest {
            package_name,
            edition: edition_text,
            dependency_section: string_of(&joined),
        },
    )
}

/// The settings of a project: read from its manifest text when there is one; otherwise the
/// default name and edition 2024 with no dependencies.
pub fn load_project_manifest(content: Option<&str>, default_name: String) -> (r: Result<
    ProjectManifest,
    String,
>)
    ensures
        content is None ==> (r matches Ok(m) && manifest_view(m) == (default_name@, "2024"@, Seq::<
            char,
        >::empty())),
        content matches Some(text) ==> match r {
            Ok(m) => parsed_manifest(text@, default_name@) == Ok::<
                (Seq<char>, Seq<char>, Seq<char>),
                Seq<char>,
            >(manifest_view(m)),
            Err(message) => parsed_manifest(text@, default_name@) == Err::<
                (Seq<char>, Seq<char>, Seq<char>),
                Seq<char>,
            >(message@),
        },
{
    match content {
        Some(text) => parse_manifest(text, default_name),
        None => Ok(
            ProjectManifest {
                package_name: default_name,
                edition: String::from_str("2024"),
                dependency_section: String::new(),
            },
        ),
    }
}

/// The package name of a project in a directory with the given name: that name, or
/// `zoxi-app` when there is none.
pub fn default_package_name(directory_name: Option<&str>) -> (name: String)
    ensures
        name@ == match directory_name {
            Some(d) => if d@.len() > 0 {
                d@
            } else {
                "zoxi-app"@
            },
            None => "zoxi-app"@,
        },
{
    match directory_name {
        Some(d) => {
            let c = chars_of(d);
            if c.len() > 0 {
                string_of(&c)
            } else {
                String::from_str("zoxi-app")
            }
        },
        None => String::from_str("zoxi-app"),
    }
}

/// The manifest written for a project that has none.
pub open spec fn default_manifest_text(package_name: Seq<char>) -> Seq<char> {
    "[package]\nname = \""@ + package_name
        + "\"\nversion = \"0.1.0\"\nedition = \"2024\"\n\n[dependencies]\n"@
}

pub fn default_manifest(package_name: &str) -> (text: String)
    ensures
        text@ == default_manifest_text(package_name@),
{
    let mut out: Vec<char> = Vec::new();
    push_str(&mut out, "[package]\nname = \"");
    push_str(&mut out, package_name);
    push_str(&mut out, "\"\nversion = \"0.1.0\"\nedition = \"2024\"\n\n[dependencies]\n");
    string_of(&out)
}

} // verus!
