//! Function signatures and bodies in source text: `fn f(..): T` and `|x|: T` become
//! `-> T`, and the tail expression of a function that returns a `Result` is wrapped in `Ok(..)`.
use crate::project::fields::{find_char, find_char_at, lemma_find_char_bounds};
use crate::project::manifest::{trim_chars, trim_spec};
use crate::text::{
    chars_of, occurs_at, push_all, push_range, push_str, starts_with_str_at, string_of,
};
use crate::transpiler::compiler::generator::spec::{ends_with, starts_with};
use crate::transpiler::compiler::generator::text::{ends_with_str, starts_with_str};
use crate::transpiler::error::TranspileError;
use super::keywords::{keyword_at, scan_identifier, starts_with_keyword};
use super::literals::{
    chars_result, lemma_prefixed_empty, lemma_prefixed_then, prefixed, text_result, then,
};
use super::scan::{
    at_top, dec, find_matching, identifier_end, lemma_matching_bounds, lemma_skip_bounds,
    lemma_skip_ws_bounds, matching_from, skip_at, skip_quoted, skip_whitespace, skip_ws,
    trim_end_index, trimmed_end,
};
use vstd::prelude::*;

verus! {

/// Where the parameter list of a function signature that starts at `i` (`fn name(..)`, with
/// generics `<..>` allowed after the name) ends, just after its `)`; `None` when no such
/// signature starts there.
pub open spec fn signature_end(s: Seq<char>, i: int) -> Option<int> {
    if !keyword_at(s, i, "fn"@) {
        None
    } else {
        let n = skip_ws(s, i + 2);
        let ne = identifier_end(s, n);
        if !(n < ne) {
            None
        } else {
            let g = skip_ws(s, ne);
            let p = if g < s.len() && s[g] == '<' {
                match matching_from(s, g, '<', '>', 0) {
                    Ok(e) => skip_ws(s, e),
                    Err(_) => -1,
                }
            } else {
                g
            };
            if 0 <= p < s.len() && s[p] == '(' {
                match matching_from(s, p, '(', ')', 0) {
                    Ok(e) => if i < e <= s.len() {
                        Some(e)
                    } else {
                        None
                    },
                    Err(_) => None,
                }
            } else {
                None
            }
        }
    }
}

/// The text from `i` with the `:` that follows the parameter list of a function signature or
/// the closing `|` of a closure's parameters (spaces allowed between) made ` ->`; strings,
/// character literals and comments are copied, and so is any other `):` (a tuple pattern's
/// type, for one).
pub open spec fn returns_from(s: Seq<char>, i: int) -> Result<Seq<char>, char>
    decreases s.len() + 1 - i,
{
    if i < 0 || i >= s.len() {
        Ok(seq![])
    } else {
        match skip_at(s, i, true) {
            Some(Ok(e)) => if i < e <= s.len() {
                then(Ok(s.subrange(i, e)), returns_from(s, e))
            } else {
                Err('"')
            },
            Some(Err(c)) => Err(c),
            None => match signature_end(s, i) {
                Some(e) => {
                    let w = skip_ws(s, e);
                    if e <= w < s.len() && s[w] == ':' {
                        then(Ok(s.subrange(i, w) + " ->"@), returns_from(s, w + 1))
                    } else {
                        then(Ok(s.subrange(i, e)), returns_from(s, e))
                    }
                },
                None => {
                    let c = s[i];
                    let w = skip_ws(s, i + 1);
                    if c == '|' && i < w < s.len() && s[w] == ':' {
                        then(Ok(seq![c] + s.subrange(i + 1, w) + " ->"@), returns_from(s, w + 1))
                    } else {
                        then(Ok(seq![c]), returns_from(s, i + 1))
                    }
                },
            },
        }
    }
}

/// Where the parameter list of a function signature that starts at `i` ends: see
/// `signature_end`.
fn find_signature_end(s: &[char], i: usize) -> (r: Option<usize>)
    requires
        i < s@.len(),
    ensures
        r matches Some(e) ==> signature_end(s@, i as int) == Some(e as int) && i < e <= s@.len(),
        r is None ==> signature_end(s@, i as int) is None,
{
    let fn_word = chars_of("fn");
    proof {
        reveal_strlit("fn");
    }
    assert(fn_word@ == "fn"@);
    assert(fn_word@.len() == 2);
    if !starts_with_keyword(s, i, &fn_word) {
        return None;
    }
    assert(keyword_at(s@, i as int, fn_word@));
    if s.len() - i < 2 {
        return None;
    }
    let n = skip_whitespace(s, i + 2);
    let ne = scan_identifier(s, n);
    if !(n < ne) {
        return None;
    }
    let g = skip_whitespace(s, ne);
    let p = if g < s.len() && s[g] == '<' {
        match find_matching(s, g, '<', '>') {
            Ok(e) => skip_whitespace(s, e),
            Err(_) => {
                return None;
            },
        }
    } else {
        g
    };
    if p < s.len() && s[p] == '(' {
        match find_matching(s, p, '(', ')') {
            Ok(e) => {
                if i < e {
                    Some(e)
                } else {
                    None
                }
            },
            Err(_) => None,
        }
    } else {
        None
    }
}

/// One step of `returns_from` at `i`.
fn returns_step(s: &[char], i: usize) -> (r: Result<(Vec<char>, usize), char>)
    requires
        i < s@.len(),
    ensures
        r matches Ok((piece, e)) ==> i < e <= s@.len() && returns_from(s@, i as int) == then(
            Ok(piece@),
            returns_from(s@, e as int),
        ),
        r matches Err(c) ==> returns_from(s@, i as int) == Err::<Seq<char>, char>(c),
{
    match skip_quoted(s, i, true) {
        Some(Ok(e)) => {
            let mut piece: Vec<char> = Vec::new();
            push_range(&mut piece, s, i, e);
            return Ok((piece, e));
        },
        Some(Err(c)) => {
            return Err(c);
        },
        None => {},
    }
    match find_signature_end(s, i) {
        Some(e) => {
            proof {
                lemma_skip_ws_bounds(s@, e as int);
            }
            let w = skip_whitespace(s, e);
            let mut piece: Vec<char> = Vec::new();
            if w < s.len() && s[w] == ':' {
                push_range(&mut piece, s, i, w);
                push_str(&mut piece, " ->");
                return Ok((piece, w + 1));
            } else {
                push_range(&mut piece, s, i, e);
                return Ok((piece, e));
            }
        },
        None => {},
    }
    let c = s[i];
    let mut piece: Vec<char> = Vec::new();
    piece.push(c);
    let w = skip_whitespace(s, i + 1);
    if c == '|' && w < s.len() && s[w] == ':' {
        push_range(&mut piece, s, i + 1, w);
        push_str(&mut piece, " ->");
        assert(piece@ =~= seq![c] + s@.subrange(i + 1, w as int) + " ->"@);
        Ok((piece, w + 1))
    } else {
        assert(piece@ =~= seq![c]);
        Ok((piece, i + 1))
    }
}

/// Rewrites `fn f(..): T` and `|x|: T` as `-> T`: see `returns_from`.
pub fn rewrite_signature_returns(source: &str) -> (r: Result<String, TranspileError>)
    ensures
        text_result(r) == returns_from(source@, 0),
        r matches Err(e) ==> e is UnclosedDelimiter,
{
    let s = chars_of(source);
    let mut out: Vec<char> = Vec::new();
    let mut i: usize = 0;
    proof {
        lemma_prefixed_empty(returns_from(s@, 0));
    }
    while i < s.len()
        invariant
            i <= s@.len(),
            s@ == source@,
            returns_from(s@, 0) == prefixed(out@, returns_from(s@, i as int)),
        decreases s@.len() - i,
    {
        let ghost before = out@;
        let (piece, e) = match returns_step(&s, i) {
            Err(c) => {
                return Err(TranspileError::UnclosedDelimiter(c));
            },
            Ok(pe) => pe,
        };
        push_all(&mut out, &piece);
        proof {
            lemma_prefixed_then(before, piece@, returns_from(s@, e as int));
        }
        i = e;
    }
    assert(returns_from(s@, i as int) == Ok::<Seq<char>, char>(seq![]));
    assert(out@ + seq![] =~= out@);
    Ok(string_of(&out))
}

/// Where the last statement of a body starts: after its last top-level `;`, or at 0; from `i`
/// with `p`, `b`, `k` brackets open and the last such position so far `last`.
pub open spec fn last_statement_from(s: Seq<char>, i: int, p: nat, b: nat, k: nat, last: int) -> Result<
    int,
    char,
>
    decreases s.len() + 1 - i,
{
    if i < 0 || i >= s.len() {
        Ok(last)
    } else {
        match skip_at(s, i, true) {
            Some(Ok(e)) => if i < e <= s.len() {
                last_statement_from(s, e, p, b, k, last)
            } else {
                Ok(last)
            },
            Some(Err(c)) => Err(c),
            None => {
                let c = s[i];
                if c == '(' {
                    last_statement_from(s, i + 1, p + 1, b, k, last)
                } else if c == ')' {
                    last_statement_from(s, i + 1, dec(p), b, k, last)
                } else if c == '[' {
                    last_statement_from(s, i + 1, p, b, k + 1, last)
                } else if c == ']' {
                    last_statement_from(s, i + 1, p, b, dec(k), last)
                } else if c == '{' {
                    last_statement_from(s, i + 1, p, b + 1, k, last)
                } else if c == '}' {
                    last_statement_from(s, i + 1, p, dec(b), k, last)
                } else if c == ';' && at_top(p, b, k) {
                    last_statement_from(s, i + 1, p, b, k, i + 1)
                } else {
                    last_statement_from(s, i + 1, p, b, k, last)
                }
            },
        }
    }
}

/// Where the last statement of a body starts: see `last_statement_from`.
pub fn find_last_statement_start(s: &[char]) -> (r: Result<usize, char>)
    ensures
        r matches Ok(last) ==> last_statement_from(s@, 0, 0, 0, 0, 0) == Ok::<int, char>(
            last as int,
        ) && last <= s@.len(),
        r matches Err(c) ==> last_statement_from(s@, 0, 0, 0, 0, 0) == Err::<int, char>(c),
{
    let mut p: usize = 0;
    let mut b: usize = 0;
    let mut k: usize = 0;
    let mut last: usize = 0;
    let mut i: usize = 0;
    while i < s.len()
        invariant
            i <= s@.len(),
            last <= i,
            p + b + k <= i,
            last_statement_from(s@, 0, 0, 0, 0, 0) == last_statement_from(
                s@,
                i as int,
                p as nat,
                b as nat,
                k as nat,
                last as int,
            ),
        decreases s@.len() - i,
    {
        match skip_quoted(s, i, true) {
            Some(Ok(e)) => {
                i = e;
            },
            Some(Err(c)) => {
                return Err(c);
            },
            None => {
                let c = s[i];
                if c == '(' {
                    p += 1;
                } else if c == ')' {
                    if p > 0 {
                        p -= 1;
                    }
                } else if c == '[' {
                    k += 1;
                } else if c == ']' {
                    if k > 0 {
                        k -= 1;
                    }
                } else if c == '{' {
                    b += 1;
                } else if c == '}' {
                    if b > 0 {
                        b -= 1;
                    }
                } else if c == ';' && p == 0 && b == 0 && k == 0 {
                    last = i + 1;
                }
                i += 1;
            },
        }
    }
    Ok(last)
}

/// A tail that is not wrapped: empty, a statement, a `return`, or already `Ok(..)` or
/// `Err(..)`.
pub open spec fn plain_tail(tail: Seq<char>) -> bool {
    tail.len() == 0 || ends_with(tail, ";"@) || starts_with(tail, "return"@) || starts_with(
        tail,
        "Ok("@,
    ) || starts_with(tail, "Err("@)
}

/// A body (without trailing whitespace) with its tail expression wrapped in `Ok(..)`.
pub open spec fn wrap_tail(body: Seq<char>) -> Result<Seq<char>, char> {
    let b = body.subrange(0, trimmed_end(body, body.len() as int));
    match last_statement_from(b, 0, 0, 0, 0, 0) {
        Err(c) => Err(c),
        Ok(last) => {
            let tail = trim_spec(b.subrange(last, b.len() as int), false);
            if plain_tail(tail) {
                Ok(b)
            } else {
                Ok(b.subrange(0, last) + "Ok("@ + tail + ")"@)
            }
        },
    }
}

/// Where the last statement of a body (its trailing whitespace dropped) starts at `last`, a
/// tail that is empty, ends with `;`, or starts with `return`, `Ok(` or `Err(` is left as
/// written: the body comes back with only its trailing whitespace dropped. Any other tail is
/// wrapped in `Ok(..)` and the statements before it are kept.
pub proof fn lemma_wrap_tail_cases(body: Seq<char>, last: int)
    requires
        last_statement_from(
            body.subrange(0, trimmed_end(body, body.len() as int)),
            0,
            0,
            0,
            0,
            0,
        ) == Ok::<int, char>(last),
    ensures
        ({
            let b = body.subrange(0, trimmed_end(body, body.len() as int));
            let tail = trim_spec(b.subrange(last, b.len() as int), false);
            &&& tail.len() == 0 ==> wrap_tail(body) == Ok::<Seq<char>, char>(b)
            &&& ends_with(tail, ";"@) ==> wrap_tail(body) == Ok::<Seq<char>, char>(b)
            &&& starts_with(tail, "return"@) ==> wrap_tail(body) == Ok::<Seq<char>, char>(b)
            &&& starts_with(tail, "Ok("@) ==> wrap_tail(body) == Ok::<Seq<char>, char>(b)
            &&& starts_with(tail, "Err("@) ==> wrap_tail(body) == Ok::<Seq<char>, char>(b)
            &&& !(tail.len() == 0 || ends_with(tail, ";"@) || starts_with(tail, "return"@)
                || starts_with(tail, "Ok("@) || starts_with(tail, "Err("@)) ==> wrap_tail(body)
                == Ok::<Seq<char>, char>(b.subrange(0, last) + "Ok("@ + tail + ")"@)
        }),
{
}

pub proof fn lemma_trimmed_end_bounds(s: Seq<char>, e: int)
    requires
        0 <= e <= s.len(),
    ensures
        0 <= trimmed_end(s, e) <= e,
    decreases e,
{
    if e > 0 && crate::text::is_ws(s[e - 1]) {
        lemma_trimmed_end_bounds(s, e - 1);
    }
}

/// The body with its tail expression wrapped in `Ok(..)`: see `wrap_tail`.
pub fn wrap_result_tail_expression(body: &[char]) -> (r: Result<Vec<char>, char>)
    ensures
        chars_result(r) == wrap_tail(body@),
{
    proof {
        lemma_trimmed_end_bounds(body@, body@.len() as int);
    }
    let end = trim_end_index(body);
    let mut b: Vec<char> = Vec::new();
    push_range(&mut b, body, 0, end);
    let last = match find_last_statement_start(&b) {
        Err(c) => {
            return Err(c);
        },
        Ok(last) => last,
    };
    let mut rest: Vec<char> = Vec::new();
    push_range(&mut rest, &b, last, b.len());
    let tail = trim_chars(&rest, false);
    if tail.len() == 0 || ends_with_str(&tail, ";") || starts_with_str(&tail, "return")
        || starts_with_str(&tail, "Ok(") || starts_with_str(&tail, "Err(") {
        return Ok(b);
    }
    let mut out: Vec<char> = Vec::new();
    push_range(&mut out, &b, 0, last);
    push_str(&mut out, "Ok(");
    push_all(&mut out, &tail);
    push_str(&mut out, ")");
    Ok(out)
}

/// `needle` occurs somewhere in `s`.
pub open spec fn contains_text(s: Seq<char>, needle: Seq<char>) -> bool {
    exists|j: int| occurs_at(s, j, needle)
}

/// Whether `needle` occurs somewhere in `s`.
pub fn contains_str(s: &[char], needle: &str) -> (b: bool)
    ensures
        b == contains_text(s@, needle@),
{
    let mut j: usize = 0;
    while j < s.len()
        invariant
            j <= s@.len(),
            forall|x: int| 0 <= x < j ==> !occurs_at(s@, x, needle@),
        decreases s@.len() - j,
    {
        if starts_with_str_at(s, j, needle) {
            return true;
        }
        j += 1;
    }
    if starts_with_str_at(s, j, needle) {
        return true;
    }
    assert forall|x: int| !occurs_at(s@, x, needle@) by {
        if 0 <= x && x < j {
        } else if x > j {
            assert(x + needle@.len() > s@.len());
        }
    }
    false
}

/// The text from `i` with the body of every function whose signature holds `-> Result<`
/// given an `Ok(..)` tail: see `wrap_tail`. Nothing else is changed.
pub open spec fn result_functions_from(s: Seq<char>, i: int) -> Result<Seq<char>, char>
    decreases s.len() + 1 - i,
{
    if i < 0 || i >= s.len() {
        Ok(seq![])
    } else if keyword_at(s, i, "fn"@) && find_char(s, '{', i) is Some {
        let body_start = find_char(s, '{', i).unwrap();
        match matching_from(s, body_start, '{', '}', 0) {
            Err(c) => Err(c),
            Ok(body_end) => if i <= body_start && body_start + 2 <= body_end <= s.len() {
                let signature = s.subrange(i, body_start);
                let body = s.subrange(body_start + 1, body_end - 1);
                let text = if contains_text(signature, "-> Result<"@) {
                    wrap_tail(body)
                } else {
                    Ok(body)
                };
                then(
                    match text {
                        Ok(t) => Ok(signature + "{"@ + t + "}"@),
                        Err(c) => Err(c),
                    },
                    result_functions_from(s, body_end),
                )
            } else {
                Err('{')
            },
        }
    } else {
        then(Ok(seq![s[i]]), result_functions_from(s, i + 1))
    }
}

/// One step of `result_functions_from` at `i`.
fn result_function_step(s: &[char], i: usize, fn_word: &[char]) -> (r: Result<(Vec<char>, usize), char>)
    requires
        i < s@.len(),
        fn_word@ == "fn"@,
    ensures
        r matches Ok((piece, e)) ==> i < e <= s@.len() && result_functions_from(s@, i as int)
            == then(Ok(piece@), result_functions_from(s@, e as int)),
        r matches Err(c) ==> result_functions_from(s@, i as int) == Err::<Seq<char>, char>(c),
{
    proof {
        lemma_find_char_bounds(s@, '{', i as int);
    }
    if starts_with_keyword(s, i, fn_word) {
        match find_char_at(s, '{', i) {
            Some(body_start) => {
                proof {
                    lemma_skip_bounds(s@, body_start as int, true);
                    lemma_matching_bounds(s@, body_start + 1, '{', '}', 1);
                }
                let body_end = match find_matching(s, body_start, '{', '}') {
                    Err(c) => {
                        return Err(c);
                    },
                    Ok(e) => e,
                };
                let mut signature: Vec<char> = Vec::new();
                push_range(&mut signature, s, i, body_start);
                let mut body: Vec<char> = Vec::new();
                push_range(&mut body, s, body_start + 1, body_end - 1);
                let text = if contains_str(&signature, "-> Result<") {
                    match wrap_result_tail_expression(&body) {
                        Err(c) => {
                            return Err(c);
                        },
                        Ok(t) => t,
                    }
                } else {
                    body
                };
                let mut piece = signature;
                push_str(&mut piece, "{");
                push_all(&mut piece, &text);
                push_str(&mut piece, "}");
                return Ok((piece, body_end));
            },
            None => {},
        }
    }
    let mut piece: Vec<char> = Vec::new();
    piece.push(s[i]);
    assert(piece@ =~= seq![s@[i as int]]);
    Ok((piece, i + 1))
}

/// Gives the tail expression of every function that returns a `Result` an `Ok(..)`: see
/// `result_functions_from`.
pub fn rewrite_result_functions(source: &str) -> (r: Result<String, TranspileError>)
    ensures
        text_result(r) == result_functions_from(source@, 0),
        r matches Err(e) ==> e is UnclosedDelimiter,
{
    let s = chars_of(source);
    let fn_word = chars_of("fn");
    let mut out: Vec<char> = Vec::new();
    let mut i: usize = 0;
    proof {
        lemma_prefixed_empty(result_functions_from(s@, 0));
    }
    while i < s.len()
        invariant
            i <= s@.len(),
            s@ == source@,
            fn_word@ == "fn"@,
            result_functions_from(s@, 0) == prefixed(out@, result_functions_from(s@, i as int)),
        decreases s@.len() - i,
    {
        let ghost before = out@;
        let (piece, e) = match result_function_step(&s, i, &fn_word) {
            Err(c) => {
                return Err(TranspileError::UnclosedDelimiter(c));
            },
            Ok(pe) => pe,
        };
        push_all(&mut out, &piece);
        proof {
            lemma_prefixed_then(before, piece@, result_functions_from(s@, e as int));
        }
        i = e;
    }
    assert(result_functions_from(s@, i as int) == Ok::<Seq<char>, char>(seq![]));
    assert(out@ + seq![] =~= out@);
    Ok(string_of(&out))
}

} // verus!
