//! Collections in source text: which brackets enclose a position, what a bracketed group
//! holds at its top level, and `map[key] = value` assignments.
use crate::project::manifest::{trim_chars, trim_spec};
use crate::text::{
    chars_of, is_ident_start, is_identifier_start, push_all, push_range, push_str, string_of,
};
use crate::transpiler::error::TranspileError;
use super::literals::{
    chars_result, lemma_prefixed_empty, lemma_prefixed_then, prefixed, text_result, then,
};
use super::scan::{
    at_top, dec, expression_end_from, find_matching, matching_from, previous_char,
    previous_significant_char, skip_at, skip_quoted, scan_expression_end, skip_whitespace, skip_ws,
    identifier_end, lemma_skip_bounds,
};
use super::keywords::scan_identifier;
use vstd::prelude::*;

verus! {

/// Whether `needle` occurs at the top level of `s` from `i`, with `p`, `b`, `k` parentheses,
/// braces and square brackets open: outside any bracket, string or character literal. A
/// string or character literal that is never closed ends the search.
pub open spec fn contains_from(s: Seq<char>, i: int, needle: char, p: nat, b: nat, k: nat) -> bool
    decreases s.len() + 1 - i,
{
    if i < 0 || i >= s.len() {
        false
    } else {
        match skip_at(s, i, false) {
            Some(Ok(e)) => if i < e <= s.len() {
                contains_from(s, e, needle, p, b, k)
            } else {
                false
            },
            Some(Err(_)) => false,
            None => {
                let c = s[i];
                if c == '(' {
                    contains_from(s, i + 1, needle, p + 1, b, k)
                } else if c == ')' {
                    contains_from(s, i + 1, needle, dec(p), b, k)
                } else if c == '[' {
                    contains_from(s, i + 1, needle, p, b, k + 1)
                } else if c == ']' {
                    contains_from(s, i + 1, needle, p, b, dec(k))
                } else if c == '{' {
                    contains_from(s, i + 1, needle, p, b + 1, k)
                } else if c == '}' {
                    contains_from(s, i + 1, needle, p, dec(b), k)
                } else if c == needle && at_top(p, b, k) {
                    true
                } else {
                    contains_from(s, i + 1, needle, p, b, k)
                }
            },
        }
    }
}

/// Whether `needle` occurs at the top level of `s`.
pub open spec fn top_contains(s: Seq<char>, needle: char) -> bool {
    contains_from(s, 0, needle, 0, 0, 0)
}

/// Whether `needle` occurs at the top level of `s`: see `contains_from`.
pub fn top_level_contains(s: &[char], needle: char) -> (r: bool)
    ensures
        r == top_contains(s@, needle),
{
    let mut p: usize = 0;
    let mut b: usize = 0;
    let mut k: usize = 0;
    let mut i: usize = 0;
    while i < s.len()
        invariant
            i <= s@.len(),
            p + b + k <= i,
            top_contains(s@, needle) == contains_from(s@, i as int, needle, p as nat, b as nat, k as nat),
        decreases s@.len() - i,
    {
        match skip_quoted(s, i, false) {
            Some(Ok(e)) => {
                i = e;
            },
            Some(Err(_)) => {
                return false;
            },
            None => {
                let c = s[i];
                if c == '(' {
                    p += 1;
                } else if c == ')' {
                    if p > 0 {
                        p -= 1;
                    }
                } else if c == '[' {
                    k += 1;
                } else if c == ']' {
                    if k > 0 {
                        k -= 1;
                    }
                } else if c == '{' {
                    b += 1;
                } else if c == '}' {
                    if b > 0 {
                        b -= 1;
                    }
                } else if c == needle && p == 0 && b == 0 && k == 0 {
                    return true;
                }
                i += 1;
            },
        }
    }
    false
}

/// The pieces of `s` between top-level `delim`s, scanning from `i` with the current piece
/// starting at `start`; a string or character literal that is never closed is an error.
pub open spec fn split_from(
    s: Seq<char>,
    i: int,
    start: int,
    delim: char,
    p: nat,
    b: nat,
    k: nat,
) -> Result<Seq<Seq<char>>, char>
    decreases s.len() + 1 - i,
{
    if i < 0 || i >= s.len() {
        Ok(seq![s.subrange(start, s.len() as int)])
    } else {
        match skip_at(s, i, false) {
            Some(Ok(e)) => if i < e <= s.len() {
                split_from(s, e, start, delim, p, b, k)
            } else {
                Err(delim)
            },
            Some(Err(c)) => Err(c),
            None => {
                let c = s[i];
                if c == '(' {
                    split_from(s, i + 1, start, delim, p + 1, b, k)
                } else if c == ')' {
                    split_from(s, i + 1, start, delim, dec(p), b, k)
                } else if c == '[' {
                    split_from(s, i + 1, start, delim, p, b, k + 1)
                } else if c == ']' {
                    split_from(s, i + 1, start, delim, p, b, dec(k))
                } else if c == '{' {
                    split_from(s, i + 1, start, delim, p, b + 1, k)
                } else if c == '}' {
                    split_from(s, i + 1, start, delim, p, dec(b), k)
                } else if c == delim && at_top(p, b, k) {
                    match split_from(s, i + 1, i + 1, delim, p, b, k) {
                        Ok(rest) => Ok(seq![s.subrange(start, i)] + rest),
                        Err(c) => Err(c),
                    }
                } else {
                    split_from(s, i + 1, start, delim, p, b, k)
                }
            },
        }
    }
}

/// The pieces of `s` between its top-level `delim`s.
pub open spec fn split_top(s: Seq<char>, delim: char) -> Result<Seq<Seq<char>>, char> {
    split_from(s, 0, 0, delim, 0, 0, 0)
}

/// Every piece is a part of the text, and there is at least one.
pub proof fn lemma_split_pieces(
    s: Seq<char>,
    i: int,
    start: int,
    delim: char,
    p: nat,
    b: nat,
    k: nat,
)
    requires
        0 <= start <= i <= s.len(),
    ensures
        split_from(s, i, start, delim, p, b, k) matches Ok(parts) ==> parts.len() >= 1 && forall|
            j: int,
        | 0 <= j < parts.len() ==> (#[trigger] parts[j]).len() <= s.len(),
    decreases s.len() + 1 - i,
{
    if i < s.len() {
        lemma_skip_bounds(s, i, false);
        match skip_at(s, i, false) {
            Some(Ok(e)) => {
                if i < e <= s.len() {
                    lemma_split_pieces(s, e, start, delim, p, b, k);
                }
            },
            Some(Err(_)) => {},
            None => {
                let c = s[i];
                lemma_split_pieces(s, i + 1, start, delim, p + 1, b, k);
                lemma_split_pieces(s, i + 1, start, delim, dec(p), b, k);
                lemma_split_pieces(s, i + 1, start, delim, p, b, k + 1);
                lemma_split_pieces(s, i + 1, start, delim, p, b, dec(k));
                lemma_split_pieces(s, i + 1, start, delim, p, b + 1, k);
                lemma_split_pieces(s, i + 1, start, delim, p, dec(b), k);
                lemma_split_pieces(s, i + 1, start, delim, p, b, k);
                lemma_split_pieces(s, i + 1, i + 1, delim, p, b, k);
                if c == delim && at_top(p, b, k) && c != '(' && c != ')' && c != '[' && c != ']'
                    && c != '{' && c != '}' {
                    match split_from(s, i + 1, i + 1, delim, p, b, k) {
                        Ok(rest) => {
                            let parts = seq![s.subrange(start, i)] + rest;
                            assert forall|j: int| 0 <= j < parts.len() implies (
                            #[trigger] parts[j]).len() <= s.len() by {
                                if j > 0 {
                                    assert(parts[j] == rest[j - 1]);
                                }
                            }
                        },
                        Err(_) => {},
                    }
                }
            },
        }
    }
}

/// The texts of a list of character vectors.
pub open spec fn pieces_view(v: Seq<Vec<char>>) -> Seq<Seq<char>> {
    v.map_values(|x: Vec<char>| x@)
}

/// Pieces already split off, followed by what the rest of the scan gives.
pub open spec fn after_pieces(done: Seq<Seq<char>>, rest: Result<Seq<Seq<char>>, char>) -> Result<
    Seq<Seq<char>>,
    char,
> {
    match rest {
        Ok(r) => Ok(done + r),
        Err(c) => Err(c),
    }
}

/// Splits `s` at its top-level `delim`s: see `split_from`.
pub fn split_top_level(s: &[char], delim: char) -> (r: Result<Vec<Vec<char>>, char>)
    ensures
        r matches Ok(parts) ==> split_top(s@, delim) == Ok::<Seq<Seq<char>>, char>(
            pieces_view(parts@),
        ),
        r matches Err(c) ==> split_top(s@, delim) == Err::<Seq<Seq<char>>, char>(c),
{
    let mut parts: Vec<Vec<char>> = Vec::new();
    let mut p: usize = 0;
    let mut b: usize = 0;
    let mut k: usize = 0;
    let mut start: usize = 0;
    let mut i: usize = 0;
    while i < s.len()
        invariant
            start <= i <= s@.len(),
            p + b + k <= i,
            split_top(s@, delim) == after_pieces(
                pieces_view(parts@),
                split_from(s@, i as int, start as int, delim, p as nat, b as nat, k as nat),
            ),
        decreases s@.len() - i,
    {
        match skip_quoted(s, i, false) {
            Some(Ok(e)) => {
                i = e;
            },
            Some(Err(c)) => {
                return Err(c);
            },
            None => {
                let c = s[i];
                if c == '(' {
                    p += 1;
                } else if c == ')' {
                    if p > 0 {
                        p -= 1;
                    }
                } else if c == '[' {
                    k += 1;
                } else if c == ']' {
                    if k > 0 {
                        k -= 1;
                    }
                } else if c == '{' {
                    b += 1;
                } else if c == '}' {
                    if b > 0 {
                        b -= 1;
                    }
                } else if c == delim && p == 0 && b == 0 && k == 0 {
                    let mut piece: Vec<char> = Vec::new();
                    push_range(&mut piece, s, start, i);
                    let ghost before = parts@;
                    parts.push(piece);
                    proof {
                        assert(pieces_view(parts@) =~= pieces_view(before).push(
                            s@.subrange(start as int, i as int),
                        ));
                        match split_from(s@, i + 1, i + 1, delim, p as nat, b as nat, k as nat) {
                            Ok(rest) => {
                                assert(pieces_view(parts@) + rest =~= pieces_view(before) + (seq![
                                    s@.subrange(start as int, i as int),
                                ] + rest));
                            },
                            Err(_) => {},
                        }
                    }
                    start = i + 1;
                }
                i += 1;
            },
        }
    }
    let mut piece: Vec<char> = Vec::new();
    push_range(&mut piece, s, start, s.len());
    let ghost before = parts@;
    parts.push(piece);
    assert(pieces_view(parts@) =~= pieces_view(before) + seq![
        s@.subrange(start as int, s@.len() as int),
    ]);
    Ok(parts)
}

/// An opened bracket: the bracket and the character before it, if any.
pub type Container = (char, Option<char>);

/// The brackets still open at `end`, scanning from `i` with `stack` open: a closing bracket
/// closes the last one opened, whatever it is. `None` when a string, character literal or
/// block comment is never closed.
pub open spec fn container_stack(s: Seq<char>, i: int, end: int, stack: Seq<Container>) -> Option<
    Seq<Container>,
>
    decreases s.len() + 1 - i,
{
    if i < 0 || i >= end || i >= s.len() {
        Some(stack)
    } else {
        match skip_at(s, i, true) {
            Some(Ok(e)) => if i < e <= s.len() {
                container_stack(s, e, end, stack)
            } else {
                None
            },
            Some(Err(_)) => None,
            None => {
                let c = s[i];
                if c == '(' || c == '[' || c == '{' {
                    container_stack(s, i + 1, end, stack.push((c, previous_char(s, i))))
                } else if c == ')' || c == ']' || c == '}' {
                    container_stack(
                        s,
                        i + 1,
                        end,
                        if stack.len() > 0 {
                            stack.drop_last()
                        } else {
                            stack
                        },
                    )
                } else {
                    container_stack(s, i + 1, end, stack)
                }
            },
        }
    }
}

/// The innermost bracket open at `end`.
pub open spec fn innermost(s: Seq<char>, end: int) -> Option<Container> {
    match container_stack(s, 0, end, seq![]) {
        Some(stack) => if stack.len() > 0 {
            Some(stack.last())
        } else {
            None
        },
        None => None,
    }
}

/// The innermost bracket open at `end` and the character before it.
pub fn innermost_container(s: &[char], end: usize) -> (r: Option<(char, Option<char>)>)
    ensures
        r == innermost(s@, end as int),
{
    let mut stack: Vec<(char, Option<char>)> = Vec::new();
    let mut i: usize = 0;
    while i < end && i < s.len()
        invariant
            i <= s@.len(),
            container_stack(s@, 0, end as int, seq![]) == container_stack(
                s@,
                i as int,
                end as int,
                stack@,
            ),
        decreases s@.len() - i,
    {
        match skip_quoted(s, i, true) {
            Some(Ok(e)) => {
                i = e;
            },
            Some(Err(_)) => {
                return None;
            },
            None => {
                let c = s[i];
                if c == '(' || c == '[' || c == '{' {
                    let before = previous_significant_char(s, i);
                    stack.push((c, before));
                } else if c == ')' || c == ']' || c == '}' {
                    if stack.len() > 0 {
                        let ghost old_stack = stack@;
                        stack.pop();
                        assert(stack@ =~= old_stack.drop_last());
                    }
                }
                i += 1;
            },
        }
    }
    if stack.len() > 0 {
        let last = stack[stack.len() - 1];
        Some(last)
    } else {
        None
    }
}

/// A character after which an opening bracket starts a literal rather than an index or a
/// block: none at all, `=`, `(`, `,`, `{`, `[` or `;`.
pub open spec fn literal_position(prev: Option<char>) -> bool {
    match prev {
        None => true,
        Some(c) => c == '=' || c == '(' || c == ',' || c == '{' || c == '[' || c == ';',
    }
}

fn is_literal_position(prev: Option<char>) -> (b: bool)
    ensures
        b == literal_position(prev),
{
    match prev {
        None => true,
        Some(c) => c == '=' || c == '(' || c == ',' || c == '{' || c == '[' || c == ';',
    }
}

/// `[inner]` at `i` becomes `vec![...]`: it holds no top-level `;` and stands where a
/// literal can.
pub open spec fn rewrites_vec(s: Seq<char>, i: int, inner: Seq<char>) -> bool {
    !top_contains(inner, ';') && literal_position(previous_char(s, i))
}

/// `{inner}` at `i` becomes a map: it stands where a literal can and is blank or holds a
/// top-level `:`.
pub open spec fn rewrites_map(s: Seq<char>, i: int, inner: Seq<char>) -> bool {
    literal_position(previous_char(s, i)) && (trim_spec(inner, false).len() == 0 || top_contains(
        inner,
        ':',
    ))
}

/// Whether the square brackets at `i`, around `inner`, form a vector literal.
pub fn should_rewrite_vec(s: &[char], i: usize, inner: &[char]) -> (b: bool)
    requires
        i <= s@.len(),
    ensures
        b == rewrites_vec(s@, i as int, inner@),
{
    !top_level_contains(inner, ';') && is_literal_position(previous_significant_char(s, i))
}

/// Whether the braces at `i`, around `inner`, form a map literal.
pub fn should_rewrite_map(s: &[char], i: usize, inner: &[char]) -> (b: bool)
    requires
        i <= s@.len(),
    ensures
        b == rewrites_map(s@, i as int, inner@),
{
    is_literal_position(previous_significant_char(s, i)) && (trim_chars(inner, false).len() == 0
        || top_level_contains(inner, ':'))
}

/// The rewriting of a `name[key] = value` assignment whose name spans `s[i..name_end]`:
/// `name.insert(key, value)` with key and value trimmed, and where the value ends (before
/// its `;` or `,`). `Ok(None)` when no `[..] =` follows the name (an `==` is a comparison).
pub open spec fn index_assignment(s: Seq<char>, i: int, name_end: int) -> Result<
    Option<(Seq<char>, int)>,
    char,
> {
    let open = skip_ws(s, name_end);
    if !(open < s.len() && s[open] == '[') {
        Ok(None)
    } else {
        match matching_from(s, open, '[', ']', 0) {
            Err(c) => Err(c),
            Ok(close) => {
                let eq = skip_ws(s, close);
                if !(eq < s.len() && s[eq] == '=' && !(eq + 1 < s.len() && s[eq + 1] == '=')) {
                    Ok(None)
                } else {
                    let value_start = skip_ws(s, eq + 1);
                    match expression_end_from(s, value_start, 0, 0, 0) {
                        Err(c) => Err(c),
                        Ok(value_end) => Ok(
                            Some(
                                (
                                    s.subrange(i, name_end) + ".insert("@ + trim_spec(
                                        s.subrange(open + 1, close - 1),
                                        false,
                                    ) + ", "@ + trim_spec(s.subrange(value_start, value_end), false)
                                        + ")"@,
                                    value_end,
                                ),
                            ),
                        ),
                    }
                }
            },
        }
    }
}

/// The text from `i` with every `name[key] = value` made `name.insert(key, value)`; strings,
/// character literals and comments are copied.
pub open spec fn index_assign_from(s: Seq<char>, i: int) -> Result<Seq<char>, char>
    decreases s.len() + 1 - i,
{
    if i < 0 || i >= s.len() {
        Ok(seq![])
    } else {
        match skip_at(s, i, true) {
            Some(Ok(e)) => if i < e <= s.len() {
                then(Ok(s.subrange(i, e)), index_assign_from(s, e))
            } else {
                Err('"')
            },
            Some(Err(c)) => Err(c),
            None => if is_ident_start(s[i]) {
                let name_end = identifier_end(s, i);
                match index_assignment(s, i, name_end) {
                    Err(c) => Err(c),
                    Ok(Some((text, value_end))) => if i < value_end <= s.len() {
                        then(Ok(text), index_assign_from(s, value_end))
                    } else {
                        Err('=')
                    },
                    Ok(None) => if i < name_end <= s.len() {
                        then(Ok(s.subrange(i, name_end)), index_assign_from(s, name_end))
                    } else {
                        Err('=')
                    },
                }
            } else {
                then(Ok(seq![s[i]]), index_assign_from(s, i + 1))
            },
        }
    }
}

/// One step of `index_assign_from` at `i`.
fn index_assign_step(s: &[char], i: usize) -> (r: Result<(Vec<char>, usize), char>)
    requires
        i < s@.len(),
    ensures
        r matches Ok((piece, e)) ==> i < e <= s@.len() && index_assign_from(s@, i as int)
            == then(Ok(piece@), index_assign_from(s@, e as int)),
        r matches Err(c) ==> index_assign_from(s@, i as int) == Err::<Seq<char>, char>(c),
{
    match skip_quoted(s, i, true) {
        Some(Ok(e)) => {
            let mut piece: Vec<char> = Vec::new();
            push_range(&mut piece, s, i, e);
            return Ok((piece, e));
        },
        Some(Err(c)) => {
            return Err(c);
        },
        None => {},
    }
    let c = s[i];
    if !is_identifier_start(c) {
        let mut piece: Vec<char> = Vec::new();
        piece.push(c);
        assert(piece@ =~= seq![c]);
        return Ok((piece, i + 1));
    }
    let name_end = scan_identifier(s, i);
    assert(i < name_end);
    let mut name: Vec<char> = Vec::new();
    push_range(&mut name, s, i, name_end);
    let open = skip_whitespace(s, name_end);
    if !(open < s.len() && s[open] == '[') {
        return Ok((name, name_end));
    }
    proof {
        lemma_skip_bounds(s@, open as int, true);
        super::scan::lemma_matching_bounds(s@, open + 1, '[', ']', 1);
    }
    let close = match find_matching(s, open, '[', ']') {
        Err(c) => {
            return Err(c);
        },
        Ok(close) => close,
    };
    let eq = skip_whitespace(s, close);
    if !(eq < s.len() && s[eq] == '=' && !(eq + 1 < s.len() && s[eq + 1] == '=')) {
        return Ok((name, name_end));
    }
    let value_start = skip_whitespace(s, eq + 1);
    let value_end = match scan_expression_end(s, value_start) {
        Err(c) => {
            return Err(c);
        },
        Ok(e) => e,
    };
    let mut key: Vec<char> = Vec::new();
    push_range(&mut key, s, open + 1, close - 1);
    let key = trim_chars(&key, false);
    let mut value: Vec<char> = Vec::new();
    push_range(&mut value, s, value_start, value_end);
    let value = trim_chars(&value, false);
    let mut piece = name;
    push_str(&mut piece, ".insert(");
    push_all(&mut piece, &key);
    push_str(&mut piece, ", ");
    push_all(&mut piece, &value);
    push_str(&mut piece, ")");
    Ok((piece, value_end))
}

/// The text with every `name[key] = value` made `name.insert(key, value)`: see
/// `index_assign_from`.
pub fn index_assign_chars(s: &[char]) -> (r: Result<Vec<char>, char>)
    ensures
        chars_result(r) == index_assign_from(s@, 0),
{
    let mut out: Vec<char> = Vec::new();
    let mut i: usize = 0;
    proof {
        lemma_prefixed_empty(index_assign_from(s@, 0));
    }
    while i < s.len()
        invariant
            i <= s@.len(),
            index_assign_from(s@, 0) == prefixed(out@, index_assign_from(s@, i as int)),
        decreases s@.len() - i,
    {
        let ghost before = out@;
        let (piece, e) = match index_assign_step(s, i) {
            Err(c) => {
                return Err(c);
            },
            Ok(pe) => pe,
        };
        push_all(&mut out, &piece);
        proof {
            lemma_prefixed_then(before, piece@, index_assign_from(s@, e as int));
        }
        i = e;
    }
    assert(index_assign_from(s@, i as int) == Ok::<Seq<char>, char>(seq![]));
    assert(out@ + seq![] =~= out@);
    Ok(out)
}

/// Rewrites every `name[key] = value` of a source text as `name.insert(key, value)`.
pub fn rewrite_hash_map_index_assignments(source: &str) -> (r: Result<String, TranspileError>)
    ensures
        text_result(r) == index_assign_from(source@, 0),
        r matches Err(e) ==> e is UnclosedDelimiter,
{
    let s = chars_of(source);
    match index_assign_chars(&s) {
        Ok(out) => Ok(string_of(&out)),
        Err(c) => Err(TranspileError::UnclosedDelimiter(c)),
    }
}

} // verus!
