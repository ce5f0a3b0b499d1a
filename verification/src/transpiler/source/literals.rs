//! Literals in source text: string literals become `String::from(..)` or `format!(..)`,
//! `[..]` in value position becomes `vec![..]`, `{key: value}` becomes a `HashMap`.
//!
//! `rewrite_literals`, the map literal and the interpolated expressions call one another on
//! ever shorter pieces of text.
use crate::project::manifest::{trim_chars, trim_spec};
use crate::text::{
    chars_of, is_ident_continue, is_identifier_continue, push_all, push_range, push_str, string_of,
};
use crate::transpiler::compiler::generator::spec::{
    escape_format, format_text, interpolations, join,
};
use crate::transpiler::compiler::generator::text::{
    find_interpolations, push_escaped_format, push_join, spots_ordered, spots_view, texts,
    lemma_interpolations_ordered,
};
use crate::transpiler::error::TranspileError;
use super::collections::{
    innermost, innermost_container, lemma_split_pieces, pieces_view, rewrites_map, rewrites_vec,
    should_rewrite_map, should_rewrite_vec, split_top, split_top_level,
};
use super::keywords::{lemma_rewrite_word_len, rewrite_word_chars, rewrite_word_spec};
use super::scan::{
    block_comment_end, char_end, find_matching, lemma_block_comment_bounds,
    lemma_closing_quote_bounds, lemma_matching_bounds, line_comment_end, line_end, matching_from,
    opens_comment, previous_char, previous_significant, previous_significant_char,
    previous_significant_index, scan_block_comment, scan_char_or_lifetime, scan_string, string_end,
    lemma_skip_bounds,
};
use vstd::prelude::*;

verus! {

/// A piece of output followed by the rest: the first error wins.
pub open spec fn then(piece: Result<Seq<char>, char>, rest: Result<Seq<char>, char>) -> Result<
    Seq<char>,
    char,
> {
    match piece {
        Ok(p) => match rest {
            Ok(r) => Ok(p + r),
            Err(c) => Err(c),
        },
        Err(c) => Err(c),
    }
}

/// Output already written, followed by the rest.
pub open spec fn prefixed(out: Seq<char>, rest: Result<Seq<char>, char>) -> Result<Seq<char>, char> {
    then(Ok(out), rest)
}

/// A list already built, followed by the rest of it.
pub open spec fn prefixed_list(done: Seq<Seq<char>>, rest: Result<Seq<Seq<char>>, char>) -> Result<
    Seq<Seq<char>>,
    char,
> {
    match rest {
        Ok(r) => Ok(done + r),
        Err(c) => Err(c),
    }
}

/// The characters of an outcome.
pub open spec fn chars_result(r: Result<Vec<char>, char>) -> Result<Seq<char>, char> {
    match r {
        Ok(v) => Ok(v@),
        Err(c) => Err(c),
    }
}

/// The text of a transpiler outcome, an unclosed delimiter as itself.
pub open spec fn text_result(r: Result<String, TranspileError>) -> Result<Seq<char>, char> {
    match r {
        Ok(t) => Ok(t@),
        Err(TranspileError::UnclosedDelimiter(c)) => Err(c),
        Err(_) => Err('\u{0}'),
    }
}

pub proof fn lemma_prefixed_then(out: Seq<char>, p: Seq<char>, rest: Result<Seq<char>, char>)
    ensures
        prefixed(out, then(Ok(p), rest)) == prefixed(out + p, rest),
{
    match rest {
        Ok(r) => {
            assert(out + (p + r) =~= (out + p) + r);
        },
        Err(_) => {},
    }
}

/// `c` is `Some` of one of the listed characters.
pub open spec fn is_one_of(c: Option<char>, a: char, b: char, d: char) -> bool {
    c == Some(a) || c == Some(b) || c == Some(d)
}

/// `c` is `Some` of a character that may continue an identifier.
pub open spec fn ident_char(c: Option<char>) -> bool {
    c matches Some(x) && is_ident_continue(x)
}

/// A string literal at `i` stays as written (a `&str`): it is an argument of a call or a
/// macro, an index, or follows `!` or `&`. After `=` or `:` it becomes an owned `String`.
pub open spec fn keeps_raw(s: Seq<char>, i: int) -> bool {
    let prev = previous_char(s, i);
    let before = match previous_significant(s, i) {
        Some(j) => j,
        None => i,
    };
    let prev_prev = previous_char(s, before);
    if prev == Some('=') || prev == Some(':') {
        false
    } else if prev == Some(',') && innermost(s, i) is Some {
        let (open, before_open) = innermost(s, i).unwrap();
        if open == '(' {
            is_one_of(before_open, '!', ')', ']') || ident_char(before_open)
        } else if open == '[' {
            is_one_of(before_open, ')', ']', '"') || ident_char(before_open)
        } else {
            false
        }
    } else if prev == Some('[') && (is_one_of(prev_prev, ')', ']', '"') || ident_char(prev_prev)) {
        true
    } else if prev == Some('(') && (prev_prev == Some('!') || ident_char(prev_prev)
        || is_one_of(prev_prev, ')', ']', ']')) {
        true
    } else {
        prev == Some('!') || prev == Some('&')
    }
}

fn one_of(c: Option<char>, a: char, b: char, d: char) -> (r: bool)
    ensures
        r == is_one_of(c, a, b, d),
{
    match c {
        Some(x) => x == a || x == b || x == d,
        None => false,
    }
}

fn ident_continues(c: Option<char>) -> (r: bool)
    ensures
        r == ident_char(c),
{
    match c {
        Some(x) => is_identifier_continue(x),
        None => false,
    }
}

/// Whether the string literal at `i` stays as written: see `keeps_raw`.
pub fn should_keep_raw_string(s: &[char], i: usize) -> (r: bool)
    requires
        i <= s@.len(),
    ensures
        r == keeps_raw(s@, i as int),
{
    let prev = previous_significant_char(s, i);
    let before = match previous_significant_index(s, i) {
        Some(j) => j,
        None => i,
    };
    let prev_prev = previous_significant_char(s, before);
    if prev == Some('=') || prev == Some(':') {
        return false;
    }
    if prev == Some(',') {
        match innermost_container(s, i) {
            Some((open, before_open)) => {
                if open == '(' {
                    return one_of(before_open, '!', ')', ']') || ident_continues(before_open);
                } else if open == '[' {
                    return one_of(before_open, ')', ']', '"') || ident_continues(before_open);
                } else {
                    return false;
                }
            },
            None => {},
        }
    }
    if prev == Some('[') && (one_of(prev_prev, ')', ']', '"') || ident_continues(prev_prev)) {
        return true;
    }
    if prev == Some('(') && (prev_prev == Some('!') || ident_continues(prev_prev) || one_of(
        prev_prev,
        ')',
        ']',
        ']',
    )) {
        return true;
    }
    prev == Some('!') || prev == Some('&')
}

/// The text with whole-word `string` replaced by `String` and its literals rewritten.
pub open spec fn nested_spec(x: Seq<char>) -> Result<Seq<char>, char>
    decreases x.len(), 4int, 0int,
{
    let w = rewrite_word_spec(x, "string"@, "String"@, 0);
    if w.len() == x.len() {
        literals_spec(w)
    } else {
        Err('s')
    }
}

/// The text with its literals rewritten: see `literals_from`.
pub open spec fn literals_spec(x: Seq<char>) -> Result<Seq<char>, char>
    decreases x.len(), 3int, 0int,
{
    literals_from(x, 0)
}

/// The rewriting of `s` from `i`: strings become owned or formatted strings, character
/// literals and comments stay, square brackets in value position become `vec![..]`, braces
/// in value position that hold `key: value` pairs (or nothing) become a `HashMap`; the
/// inside of a vector or a block is rewritten as a text of its own, while the inside of an
/// index stays in its context (so a string key stays a `&str`).
pub open spec fn literals_from(s: Seq<char>, i: int) -> Result<Seq<char>, char>
    decreases s.len(), 2int, s.len() + 1 - i,
{
    if i < 0 || i >= s.len() {
        Ok(seq![])
    } else {
        let c = s[i];
        if c == '"' {
            match string_end(s, i) {
                Some(e) => if i + 2 <= e <= s.len() {
                    then(string_literal_spec(s, i, e), literals_from(s, e))
                } else {
                    Err('"')
                },
                None => Err('"'),
            }
        } else if c == '\'' {
            match char_end(s, i) {
                Some(e) => if i < e <= s.len() {
                    then(Ok(s.subrange(i, e)), literals_from(s, e))
                } else {
                    Err('\'')
                },
                None => Err('\''),
            }
        } else if opens_comment(s, i, '/') {
            let e = line_end(s, i);
            if i < e <= s.len() {
                then(Ok(s.subrange(i, e)), literals_from(s, e))
            } else {
                Err('/')
            }
        } else if opens_comment(s, i, '*') {
            match block_comment_end(s, i) {
                Some(e) => if i < e <= s.len() {
                    then(Ok(s.subrange(i, e)), literals_from(s, e))
                } else {
                    Err('/')
                },
                None => Err('/'),
            }
        } else if c == '[' {
            match matching_from(s, i, '[', ']', 0) {
                Ok(e) => if i + 2 <= e <= s.len() {
                    let inner = s.subrange(i + 1, e - 1);
                    if rewrites_vec(s, i, inner) {
                        then(
                            match nested_spec(inner) {
                                Ok(t) => Ok("vec!["@ + t + "]"@),
                                Err(c) => Err(c),
                            },
                            literals_from(s, e),
                        )
                    } else {
                        then(Ok("["@), literals_from(s, i + 1))
                    }
                } else {
                    Err('[')
                },
                Err(c) => Err(c),
            }
        } else if c == '{' {
            match matching_from(s, i, '{', '}', 0) {
                Ok(e) => if i + 2 <= e <= s.len() {
                    let inner = s.subrange(i + 1, e - 1);
                    let piece = if rewrites_map(s, i, inner) {
                        map_literal_spec(inner)
                    } else {
                        match nested_spec(inner) {
                            Ok(t) => Ok("{"@ + t + "}"@),
                            Err(c) => Err(c),
                        }
                    };
                    then(piece, literals_from(s, e))
                } else {
                    Err('{')
                },
                Err(c) => Err(c),
            }
        } else {
            then(Ok(seq![c]), literals_from(s, i + 1))
        }
    }
}

/// The string literal `s[i..e]`: as written where it stays raw, `String::from(..)` without
/// interpolations, else `format!(..)` with each `{expr}` rewritten as a text of its own.
pub open spec fn string_literal_spec(s: Seq<char>, i: int, e: int) -> Result<Seq<char>, char>
    decreases s.len(), 1int, 0int,
{
    let literal = s.subrange(i, e);
    if keeps_raw(s, i) {
        Ok(literal)
    } else {
        let content = literal.subrange(1, literal.len() - 1);
        match interpolations(content, 0) {
            Err(_) => Err('{'),
            Ok(spots) => if spots.len() == 0 {
                Ok("String::from("@ + literal + ")"@)
            } else {
                match interpolation_args(s.len() as int, content, spots, 0) {
                    Ok(args) => Ok(
                        "format!(\""@ + format_text(content, spots, 0) + "\", "@ + join(
                            args,
                            ", "@,
                        ) + ")"@,
                    ),
                    Err(c) => Err(c),
                }
            },
        }
    }
}

/// The trimmed text of the interpolation `spot` of `content`.
pub open spec fn interpolation_text(content: Seq<char>, spot: (int, int)) -> Seq<char> {
    trim_spec(content.subrange(spot.0 + 1, spot.1 - 1), false)
}

/// The rewritten interpolations of `content` from the `k`-th on; each is shorter than `n`.
pub open spec fn interpolation_args(n: int, content: Seq<char>, spots: Seq<(int, int)>, k: int) -> Result<
    Seq<Seq<char>>,
    char,
>
    decreases n, 0int, spots.len() - k,
{
    if k < 0 || k >= spots.len() {
        Ok(seq![])
    } else {
        let x = interpolation_text(content, spots[k]);
        if x.len() < n {
            match nested_spec(x) {
                Ok(a) => prefixed_list(seq![a], interpolation_args(n, content, spots, k + 1)),
                Err(c) => Err(c),
            }
        } else {
            Err('{')
        }
    }
}

/// The map literal with the top-level `key: value` pairs of `x`, each side rewritten as a
/// text of its own; blank `x` gives an empty map.
pub open spec fn map_literal_spec(x: Seq<char>) -> Result<Seq<char>, char>
    decreases x.len(), 6int, 0int,
{
    if trim_spec(x, false).len() == 0 {
        Ok("std::collections::HashMap::new()"@)
    } else {
        match split_top(x, ',') {
            Err(c) => Err(c),
            Ok(parts) => match map_entries(x.len() as int, parts, 0) {
                Ok(list) => Ok("std::collections::HashMap::from(["@ + join(list, ", "@) + "])"@),
                Err(c) => Err(c),
            },
        }
    }
}

/// The key of an entry: its first top-level piece, trimmed.
pub open spec fn entry_key(pieces: Seq<Seq<char>>) -> Seq<char> {
    trim_spec(pieces[0], false)
}

/// The value of an entry: its second top-level piece, trimmed, or nothing.
pub open spec fn entry_value(pieces: Seq<Seq<char>>) -> Seq<char> {
    if pieces.len() > 1 {
        trim_spec(pieces[1], false)
    } else {
        seq![]
    }
}

/// The `(key, value)` pairs of the entries of a map literal from the `k`-th on, blank
/// entries left out; every entry is at most `n` long.
pub open spec fn map_entries(n: int, parts: Seq<Seq<char>>, k: int) -> Result<Seq<Seq<char>>, char>
    decreases n, 5int, parts.len() - k,
{
    if k < 0 || k >= parts.len() {
        Ok(seq![])
    } else if trim_spec(parts[k], false).len() == 0 {
        map_entries(n, parts, k + 1)
    } else if parts[k].len() <= n {
        match entry_text(parts[k], n) {
            Err(c) => Err(c),
            Ok(t) => prefixed_list(seq![t], map_entries(n, parts, k + 1)),
        }
    } else {
        Err(':')
    }
}

/// A `Vec` holding the characters of a string literal.
fn text_of(s: &str) -> (v: Vec<char>)
    ensures
        v@ == s@,
{
    chars_of(s)
}

/// The text with `string` made `String` and its literals rewritten.
pub fn transpile_nested(x: &[char]) -> (r: Result<Vec<char>, char>)
    ensures
        chars_result(r) == nested_spec(x@),
    decreases x@.len(), 5int,
{
    let from = text_of("string");
    let to = text_of("String");
    proof {
        reveal_strlit("string");
        reveal_strlit("String");
    }
    let w = rewrite_word_chars(x, &from, &to);
    proof {
        lemma_rewrite_word_len(x@, "string"@, "String"@, 0);
    }
    let r = literals_chars(&w);
    assert(nested_spec(x@) == literals_spec(w@));
    r
}

/// The text with its literals rewritten: see `literals_from`.
pub fn literals_chars(s: &[char]) -> (r: Result<Vec<char>, char>)
    ensures
        chars_result(r) == literals_spec(s@),
    decreases s@.len(), 4int,
{
    let mut out: Vec<char> = Vec::new();
    let mut i: usize = 0;
    assert(prefixed(out@, literals_from(s@, 0)) == literals_from(s@, 0)) by {
        lemma_prefixed_empty(literals_from(s@, 0));
    }
    while i < s.len()
        invariant
            i <= s@.len(),
            literals_spec(s@) == prefixed(out@, literals_from(s@, i as int)),
        decreases s@.len() - i,
    {
        let ghost before = out@;
        let (piece, e) = match literal_step(s, i) {
            Err(c) => {
                return Err(c);
            },
            Ok(pe) => pe,
        };
        push_all(&mut out, &piece);
        proof {
            lemma_prefixed_then(before, piece@, literals_from(s@, e as int));
        }
        i = e;
    }
    assert(literals_from(s@, i as int) == Ok::<Seq<char>, char>(seq![]));
    assert(out@ + seq![] =~= out@);
    Ok(out)
}

/// Nothing written yet.
pub proof fn lemma_prefixed_empty(r: Result<Seq<char>, char>)
    ensures
        prefixed(seq![], r) == r,
{
    match r {
        Ok(t) => {
            assert(seq![] + t =~= t);
        },
        Err(_) => {},
    }
}

/// One step of `literals_from` at `i`: the rewritten piece and where the rest starts.
fn literal_step(s: &[char], i: usize) -> (r: Result<(Vec<char>, usize), char>)
    requires
        i < s@.len(),
    ensures
        r matches Ok((piece, e)) ==> i < e <= s@.len() && literals_from(s@, i as int) == then(
            Ok(piece@),
            literals_from(s@, e as int),
        ),
        r matches Err(c) ==> literals_from(s@, i as int) == Err::<Seq<char>, char>(c),
    decreases s@.len(), 3int,
{
    let c = s[i];
    if c == '"' {
        proof {
            lemma_closing_quote_bounds(s@, i + 1, '"');
        }
        match scan_string(s, i) {
            None => Err('"'),
            Some(e) => {
                assert(literals_from(s@, i as int) == then(
                    string_literal_spec(s@, i as int, e as int),
                    literals_from(s@, e as int),
                ));
                match string_literal_chars(s, i, e) {
                    Err(c) => Err(c),
                    Ok(text) => Ok((text, e)),
                }
            },
        }
    } else if c == '\'' {
        proof {
            lemma_closing_quote_bounds(s@, i + 1, '\'');
        }
        match scan_char_or_lifetime(s, i) {
            None => Err('\''),
            Some(e) => {
                let mut piece: Vec<char> = Vec::new();
                push_range(&mut piece, s, i, e);
                Ok((piece, e))
            },
        }
    } else if c == '/' && s.len() - i > 1 && s[i + 1] == '/' {
        proof {
            lemma_skip_bounds(s@, i as int, true);
        }
        let e = line_comment_end(s, i);
        let mut piece: Vec<char> = Vec::new();
        push_range(&mut piece, s, i, e);
        Ok((piece, e))
    } else if c == '/' && s.len() - i > 1 && s[i + 1] == '*' {
        proof {
            lemma_block_comment_bounds(s@, i + 2);
        }
        match scan_block_comment(s, i) {
            None => Err('/'),
            Some(e) => {
                let mut piece: Vec<char> = Vec::new();
                push_range(&mut piece, s, i, e);
                Ok((piece, e))
            },
        }
    } else if c == '[' || c == '{' {
        bracket_piece(s, i)
    } else {
        let mut piece: Vec<char> = Vec::new();
        piece.push(c);
        assert(piece@ =~= seq![c]);
        Ok((piece, i + 1))
    }
}

/// The rewriting of the bracket group that opens at `i`, and where the group ends.
fn bracket_piece(s: &[char], i: usize) -> (r: Result<(Vec<char>, usize), char>)
    requires
        i < s@.len(),
        s@[i as int] == '[' || s@[i as int] == '{',
    ensures
        r matches Ok((piece, e)) ==> i < e <= s@.len() && literals_from(s@, i as int) == then(
            Ok(piece@),
            literals_from(s@, e as int),
        ),
        r matches Err(c) ==> literals_from(s@, i as int) == Err::<Seq<char>, char>(c),
    decreases s@.len(), 2int,
{
    let c = s[i];
    let close = if c == '[' {
        ']'
    } else {
        '}'
    };
    proof {
        lemma_matching_step(s@, i as int, c, close);
    }
    let e = match find_matching(s, i, c, close) {
        Err(x) => {
            assert(literals_from(s@, i as int) == Err::<Seq<char>, char>(x));
            return Err(x);
        },
        Ok(e) => e,
    };
    let mut inner: Vec<char> = Vec::new();
    push_range(&mut inner, s, i + 1, e - 1);
    let ghost iv = s@.subrange(i + 1, e - 1);
    assert(inner@ == iv);
    if c == '[' && !should_rewrite_vec(s, i, &inner) {
        let mut p: Vec<char> = Vec::new();
        push_str(&mut p, "[");
        return Ok((p, i + 1));
    }
    let ghost piece_spec = if c == '[' {
        match nested_spec(iv) {
            Ok(t) => Ok::<Seq<char>, char>("vec!["@ + t + "]"@),
            Err(c) => Err(c),
        }
    } else if rewrites_map(s@, i as int, iv) {
        map_literal_spec(iv)
    } else {
        match nested_spec(iv) {
            Ok(t) => Ok("{"@ + t + "}"@),
            Err(c) => Err(c),
        }
    };
    assert(literals_from(s@, i as int) == then(piece_spec, literals_from(s@, e as int)));
    let piece = if c == '{' && should_rewrite_map(s, i, &inner) {
        map_literal_chars(&inner)
    } else {
        match transpile_nested(&inner) {
            Err(x) => Err(x),
            Ok(t) => {
                let mut p: Vec<char> = Vec::new();
                if c == '[' {
                    push_str(&mut p, "vec![");
                    push_all(&mut p, &t);
                    push_str(&mut p, "]");
                } else {
                    push_str(&mut p, "{");
                    push_all(&mut p, &t);
                    push_str(&mut p, "}");
                }
                Ok(p)
            },
        }
    };
    match piece {
        Err(x) => Err(x),
        Ok(p) => Ok((p, e)),
    }
}

/// A bracket group that opens at `i` and is closed ends at least two characters later.
proof fn lemma_matching_step(s: Seq<char>, i: int, open: char, close: char)
    requires
        0 <= i < s.len(),
        s[i] == open,
        open != '"' && open != '\'' && open != '/',
    ensures
        matching_from(s, i, open, close, 0) matches Ok(e) ==> i + 2 <= e <= s.len(),
{
    lemma_skip_bounds(s, i, true);
    lemma_matching_bounds(s, i + 1, open, close, 1);
}

/// The string literal `s[i..e]` rewritten: see `string_literal_spec`.
#[verifier::rlimit(40)]
pub fn string_literal_chars(s: &[char], i: usize, e: usize) -> (r: Result<Vec<char>, char>)
    requires
        i + 2 <= e <= s@.len(),
    ensures
        chars_result(r) == string_literal_spec(s@, i as int, e as int),
    decreases s@.len(), 1int,
{
    let ghost literal = s@.subrange(i as int, e as int);
    if should_keep_raw_string(s, i) {
        let mut out: Vec<char> = Vec::new();
        push_range(&mut out, s, i, e);
        assert(string_literal_spec(s@, i as int, e as int) == Ok::<Seq<char>, char>(literal));
        return Ok(out);
    }
    let mut content: Vec<char> = Vec::new();
    push_range(&mut content, s, i + 1, e - 1);
    assert(content@ =~= literal.subrange(1, literal.len() - 1));
    let spots = match find_interpolations(&content) {
        Err(_) => {
            assert(string_literal_spec(s@, i as int, e as int) == Err::<Seq<char>, char>('{'));
            return Err('{');
        },
        Ok(spots) => spots,
    };
    let ghost sv = spots_view(spots@);
    if spots.len() == 0 {
        let mut out: Vec<char> = Vec::new();
        push_str(&mut out, "String::from(");
        push_range(&mut out, s, i, e);
        push_str(&mut out, ")");
        assert(string_literal_spec(s@, i as int, e as int) == Ok::<Seq<char>, char>(
            "String::from("@ + literal + ")"@,
        ));
        return Ok(out);
    }
    assert(string_literal_spec(s@, i as int, e as int) == match interpolation_args(
        s@.len() as int,
        content@,
        sv,
        0,
    ) {
        Ok(args) => Ok(
            "format!(\""@ + format_text(content@, sv, 0) + "\", "@ + join(args, ", "@) + ")"@,
        ),
        Err(c) => Err::<Seq<char>, char>(c),
    });
    let (format, args) = match interpolation_pieces(s, &content, &spots) {
        Err(c) => {
            return Err(c);
        },
        Ok(fa) => fa,
    };
    let mut out: Vec<char> = Vec::new();
    push_str(&mut out, "format!(\"");
    push_all(&mut out, &format);
    push_str(&mut out, "\", ");
    push_join(&mut out, &args, ", ");
    push_str(&mut out, ")");
    Ok(out)
}

/// The format string and the rewritten arguments of a literal's content with interpolations
/// at `spots`.
#[verifier::rlimit(40)]
fn interpolation_pieces(s: &[char], content: &Vec<char>, spots: &Vec<(usize, usize)>) -> (r: Result<
    (Vec<char>, Vec<Vec<char>>),
    char,
>)
    requires
        content@.len() + 2 <= s@.len(),
        interpolations(content@, 0) == Ok::<Seq<(int, int)>, int>(spots_view(spots@)),
    ensures
        r matches Ok((format, args)) ==> format@ == format_text(content@, spots_view(spots@), 0)
            && interpolation_args(s@.len() as int, content@, spots_view(spots@), 0) == Ok::<
            Seq<Seq<char>>,
            char,
        >(texts(args@)),
        r matches Err(c) ==> interpolation_args(s@.len() as int, content@, spots_view(spots@), 0)
            == Err::<Seq<Seq<char>>, char>(c),
    decreases s@.len(), 0int,
{
    let ghost sv = spots_view(spots@);
    let ghost n = s@.len() as int;
    proof {
        lemma_interpolations_ordered(content@, 0);
    }
    assert(spots_ordered(sv, 0, content@.len() as int));
    let mut format: Vec<char> = Vec::new();
    let mut args: Vec<Vec<char>> = Vec::new();
    let mut cursor: usize = 0;
    let mut k: usize = 0;
    assert(sv.skip(0) =~= sv);
    assert(texts(args@) =~= Seq::<Seq<char>>::empty());
    while k < spots.len()
        invariant
            k <= spots@.len(),
            n == s@.len(),
            content@.len() + 2 <= n,
            sv == spots_view(spots@),
            sv.len() == spots@.len(),
            spots_ordered(sv, 0, content@.len() as int),
            cursor <= content@.len(),
            k < spots@.len() ==> cursor <= sv[k as int].0,
            k == 0 ==> cursor == 0,
            k > 0 ==> cursor == sv[k - 1].1,
            format_text(content@, sv, 0) == format@ + format_text(
                content@,
                sv.skip(k as int),
                cursor as int,
            ),
            interpolation_args(n, content@, sv, 0) == prefixed_list(
                texts(args@),
                interpolation_args(n, content@, sv, k as int),
            ),
        decreases spots@.len() - k,
    {
        let (a, b) = spots[k];
        assert(sv[k as int] == (a as int, b as int));
        let ghost rest = sv.skip(k as int);
        assert(rest[0] == sv[k as int]);
        assert(rest.drop_first() =~= sv.skip(k + 1));
        let ghost before_format = format@;
        push_escaped_format(&mut format, content, cursor, a);
        push_str(&mut format, "{}");
        assert(format@ =~= before_format + escape_format(content@.subrange(cursor as int, a as int))
            + "{}"@);
        let mut source: Vec<char> = Vec::new();
        push_range(&mut source, content, a + 1, b - 1);
        let x = trim_chars(&source, false);
        assert(x@ == interpolation_text(content@, sv[k as int]));
        assert(x@.len() < n);
        let arg = match transpile_nested(&x) {
            Ok(arg) => arg,
            Err(c) => {
                assert(interpolation_args(n, content@, sv, k as int) == Err::<Seq<Seq<char>>, char>(c));
                return Err(c);
            },
        };
        assert(interpolation_args(n, content@, sv, k as int) == prefixed_list(
            seq![arg@],
            interpolation_args(n, content@, sv, k + 1),
        ));
        let ghost before_args = texts(args@);
        args.push(arg);
        proof {
            assert(texts(args@) =~= before_args.push(arg@));
            match interpolation_args(n, content@, sv, k + 1) {
                Ok(r) => {
                    assert(texts(args@) + r =~= before_args + (seq![arg@] + r));
                },
                Err(_) => {},
            }
        }
        cursor = b;
        k += 1;
    }
    push_escaped_format(&mut format, content, cursor, content.len());
    assert(sv.skip(k as int) =~= Seq::<(int, int)>::empty());
    assert(format@ =~= format_text(content@, sv, 0));
    assert(interpolation_args(n, content@, sv, k as int) == Ok::<Seq<Seq<char>>, char>(seq![]));
    assert(texts(args@) + seq![] =~= texts(args@));
    Ok((format, args))
}

/// The map literal for the inside `x` of a pair of braces: see `map_literal_spec`.
pub fn map_literal_chars(x: &[char]) -> (r: Result<Vec<char>, char>)
    ensures
        chars_result(r) == map_literal_spec(x@),
    decreases x@.len(), 7int,
{
    let trimmed = trim_chars(x, false);
    if trimmed.len() == 0 {
        assert(map_literal_spec(x@) == Ok::<Seq<char>, char>("std::collections::HashMap::new()"@));
        return Ok(text_of("std::collections::HashMap::new()"));
    }
    let parts = match split_top_level(x, ',') {
        Err(c) => {
            assert(map_literal_spec(x@) == Err::<Seq<char>, char>(c));
            return Err(c);
        },
        Ok(parts) => parts,
    };
    let ghost pv = pieces_view(parts@);
    assert(map_literal_spec(x@) == match map_entries(x@.len() as int, pv, 0) {
        Ok(list) => Ok("std::collections::HashMap::from(["@ + join(list, ", "@) + "])"@),
        Err(c) => Err::<Seq<char>, char>(c),
    });
    let entries = match map_entry_texts(x, &parts) {
        Err(c) => {
            return Err(c);
        },
        Ok(entries) => entries,
    };
    let mut out = text_of("std::collections::HashMap::from([");
    push_join(&mut out, &entries, ", ");
    push_str(&mut out, "])");
    Ok(out)
}

/// The `(key, value)` texts of the top-level pieces `parts` of `x`.
#[verifier::rlimit(40)]
fn map_entry_texts(x: &[char], parts: &Vec<Vec<char>>) -> (r: Result<Vec<Vec<char>>, char>)
    requires
        split_top(x@, ',') == Ok::<Seq<Seq<char>>, char>(pieces_view(parts@)),
    ensures
        r matches Ok(entries) ==> map_entries(x@.len() as int, pieces_view(parts@), 0) == Ok::<
            Seq<Seq<char>>,
            char,
        >(texts(entries@)),
        r matches Err(c) ==> map_entries(x@.len() as int, pieces_view(parts@), 0) == Err::<
            Seq<Seq<char>>,
            char,
        >(c),
    decreases x@.len(), 6int,
{
    let ghost pv = pieces_view(parts@);
    let ghost n = x@.len() as int;
    proof {
        lemma_split_pieces(x@, 0, 0, ',', 0, 0, 0);
    }
    let mut entries: Vec<Vec<char>> = Vec::new();
    let mut k: usize = 0;
    assert(texts(entries@) =~= Seq::<Seq<char>>::empty());
    while k < parts.len()
        invariant
            k <= parts@.len(),
            n == x@.len(),
            pv == pieces_view(parts@),
            pv.len() == parts@.len(),
            forall|j: int| 0 <= j < pv.len() ==> (#[trigger] pv[j]).len() <= x@.len(),
            map_entries(n, pv, 0) == prefixed_list(texts(entries@), map_entries(n, pv, k as int)),
        decreases parts@.len() - k,
    {
        let part = &parts[k];
        assert(part@ == pv[k as int]);
        let tp = trim_chars(part, false);
        if tp.len() == 0 {
            assert(map_entries(n, pv, k as int) == map_entries(n, pv, k + 1));
        } else {
            let entry = match map_entry_text(part, Ghost(n)) {
                Err(c) => {
                    assert(map_entries(n, pv, k as int) == Err::<Seq<Seq<char>>, char>(c));
                    return Err(c);
                },
                Ok(entry) => entry,
            };
            assert(map_entries(n, pv, k as int) == prefixed_list(
                seq![entry@],
                map_entries(n, pv, k + 1),
            ));
            let ghost before = texts(entries@);
            entries.push(entry);
            proof {
                assert(texts(entries@) =~= before.push(entry@));
                match map_entries(n, pv, k + 1) {
                    Ok(r) => {
                        assert(texts(entries@) + r =~= before + (seq![entry@] + r));
                    },
                    Err(_) => {},
                }
            }
        }
        k += 1;
    }
    assert(map_entries(n, pv, k as int) == Ok::<Seq<Seq<char>>, char>(seq![]));
    assert(texts(entries@) + seq![] =~= texts(entries@));
    Ok(entries)
}

/// The `(key, value)` text of one entry of a map literal, at most `n` long.
pub open spec fn entry_text(part: Seq<char>, n: int) -> Result<Seq<char>, char>
    decreases n, 4int, 0int,
{
    match split_top(part, ':') {
        Err(c) => Err(c),
        Ok(pieces) => {
            let key = entry_key(pieces);
            let value = entry_value(pieces);
            if key.len() <= n && value.len() <= n {
                match literals_spec(key) {
                    Err(c) => Err(c),
                    Ok(kk) => match literals_spec(value) {
                        Err(c) => Err(c),
                        Ok(vv) => Ok("("@ + kk + ", "@ + vv + ")"@),
                    },
                }
            } else {
                Err(':')
            }
        },
    }
}

/// The `(key, value)` text of one non-blank entry `part` of a map literal.
fn map_entry_text(part: &Vec<char>, Ghost(n): Ghost<int>) -> (r: Result<Vec<char>, char>)
    requires
        part@.len() <= n,
        trim_spec(part@, false).len() > 0,
    ensures
        chars_result(r) == entry_text(part@, n),
        r matches Ok(t) ==> Ok::<Seq<char>, char>(t@) == entry_text(part@, n),
    decreases n, 5int,
{
    let pieces = match split_top_level(part, ':') {
        Err(c) => {
            return Err(c);
        },
        Ok(pieces) => pieces,
    };
    proof {
        lemma_split_pieces(part@, 0, 0, ':', 0, 0, 0);
    }
    let ghost pp = pieces_view(pieces@);
    assert(pp[0] == pieces@[0]@);
    let key = trim_chars(&pieces[0], false);
    let value = if pieces.len() > 1 {
        assert(pp[1] == pieces@[1]@);
        trim_chars(&pieces[1], false)
    } else {
        Vec::new()
    };
    assert(key@ == entry_key(pp));
    assert(value@ == entry_value(pp));
    let kk = match literals_chars(&key) {
        Err(c) => {
            return Err(c);
        },
        Ok(kk) => kk,
    };
    let vv = match literals_chars(&value) {
        Err(c) => {
            return Err(c);
        },
        Ok(vv) => vv,
    };
    let mut entry: Vec<char> = Vec::new();
    push_str(&mut entry, "(");
    push_all(&mut entry, &kk);
    push_str(&mut entry, ", ");
    push_all(&mut entry, &vv);
    push_str(&mut entry, ")");
    Ok(entry)
}

/// Rewrites the literals of a source text: see `literals_from`. The text is read character
/// by character.
pub fn rewrite_literals(source: &str) -> (r: Result<String, TranspileError>)
    ensures
        text_result(r) == literals_spec(source@),
        r matches Err(e) ==> e is UnclosedDelimiter,
{
    let s = chars_of(source);
    match literals_chars(&s) {
        Ok(out) => Ok(string_of(&out)),
        Err(c) => Err(TranspileError::UnclosedDelimiter(c)),
    }
}

} // verus!
