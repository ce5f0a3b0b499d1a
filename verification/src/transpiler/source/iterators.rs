//! Iterator helpers in source text: `xs.map(x => ..)`, `.filter`, `.find` and `.findIndex`
//! chains become Rust iterator chains, with closure parameters dereferenced as the items
//! are borrowed.
//!
//! The receiver and the closure bodies of a chain are rewritten as texts of their own.
use crate::project::manifest::{trim_chars, trim_spec};
use crate::text::{
    is_ident_start, is_identifier_start, is_whitespace, is_ws, push_all, push_range, push_str,
    string_of, chars_of,
};
use crate::transpiler::compiler::generator::expr::{
    deref_count_of, helper_of, iterator_kind_of, rust_name_of,
};
use crate::transpiler::compiler::generator::spec::{
    HelperKind, IteratorKind, deref_count, helper_kind, is_identifier_like, iterator_kind,
    rust_name, stars,
};
use crate::transpiler::compiler::generator::text::identifier_like;
use crate::transpiler::error::TranspileError;
use super::keywords::{keyword_at, scan_identifier, starts_with_keyword};
use super::literals::{
    chars_result, lemma_prefixed_empty, lemma_prefixed_then, prefixed, text_result, then,
};
use super::scan::{
    at_top, dec, find_matching, identifier_end, lemma_matching_bounds, lemma_skip_bounds,
    lemma_skip_ws_bounds, matching_from, skip_at, skip_quoted, skip_whitespace, skip_ws,
};
use vstd::prelude::*;

verus! {

/// A helper call: its kind, its argument (trimmed) and the position after its `)`.
pub type CallView = (HelperKind, Seq<char>, int);

/// The helper call whose `.` stands at `dot`: `.name(args)` with a helper name, spaces
/// allowed before the `(`. `Ok(None)` when there is none; an error when its parentheses are
/// never closed.
pub open spec fn parse_call(s: Seq<char>, dot: int) -> Result<Option<CallView>, char> {
    if !(0 <= dot < s.len() && s[dot] == '.') {
        Ok(None)
    } else if !(dot + 1 < s.len() && is_ident_start(s[dot + 1])) {
        Ok(None)
    } else {
        let name_end = identifier_end(s, dot + 1);
        match helper_kind(s.subrange(dot + 1, name_end)) {
            None => Ok(None),
            Some(kind) => {
                let open = skip_ws(s, name_end);
                if !(open < s.len() && s[open] == '(') {
                    Ok(None)
                } else {
                    match matching_from(s, open, '(', ')', 0) {
                        Err(c) => Err(c),
                        Ok(close) => Ok(
                            Some((kind, trim_spec(s.subrange(open + 1, close - 1), false), close)),
                        ),
                    }
                }
            },
        }
    }
}

/// The first helper call of the expression that goes on at `i`, with `p`, `b`, `k` brackets
/// open: the position of its `.` and the call. The search stops at a top-level `;` or `,`
/// and at a closing bracket that was not opened in the expression.
pub open spec fn helper_from(s: Seq<char>, i: int, p: nat, b: nat, k: nat) -> Result<
    Option<(int, CallView)>,
    char,
>
    decreases s.len() + 1 - i,
{
    if i < 0 || i >= s.len() {
        Ok(None)
    } else {
        match skip_at(s, i, true) {
            Some(Ok(e)) => if i < e <= s.len() {
                helper_from(s, e, p, b, k)
            } else {
                Ok(None)
            },
            Some(Err(c)) => Err(c),
            None => {
                let c = s[i];
                if c == '(' {
                    helper_from(s, i + 1, p + 1, b, k)
                } else if c == ')' {
                    if at_top(p, b, k) {
                        Ok(None)
                    } else {
                        helper_from(s, i + 1, dec(p), b, k)
                    }
                } else if c == '[' {
                    helper_from(s, i + 1, p, b, k + 1)
                } else if c == ']' {
                    if at_top(p, b, k) {
                        Ok(None)
                    } else {
                        helper_from(s, i + 1, p, b, dec(k))
                    }
                } else if c == '{' {
                    helper_from(s, i + 1, p, b + 1, k)
                } else if c == '}' {
                    if at_top(p, b, k) {
                        Ok(None)
                    } else {
                        helper_from(s, i + 1, p, dec(b), k)
                    }
                } else if (c == ';' || c == ',') && at_top(p, b, k) {
                    Ok(None)
                } else if c == '.' && at_top(p, b, k) {
                    match parse_call(s, i) {
                        Err(c) => Err(c),
                        Ok(Some(call)) => Ok(Some((i, call))),
                        Ok(None) => helper_from(s, i + 1, p, b, k),
                    }
                } else {
                    helper_from(s, i + 1, p, b, k)
                }
            },
        }
    }
}

/// The parameter and the body around the first top-level `=>` of a helper argument, from
/// `i` with `p`, `b`, `k` brackets open.
pub open spec fn arrow_from(a: Seq<char>, i: int, p: nat, b: nat, k: nat) -> Result<
    Option<(Seq<char>, Seq<char>)>,
    char,
>
    decreases a.len() + 1 - i,
{
    if i < 0 || i >= a.len() {
        Ok(None)
    } else {
        match skip_at(a, i, true) {
            Some(Ok(e)) => if i < e <= a.len() {
                arrow_from(a, e, p, b, k)
            } else {
                Ok(None)
            },
            Some(Err(c)) => Err(c),
            None => {
                let c = a[i];
                if c == '(' {
                    arrow_from(a, i + 1, p + 1, b, k)
                } else if c == ')' {
                    arrow_from(a, i + 1, dec(p), b, k)
                } else if c == '[' {
                    arrow_from(a, i + 1, p, b, k + 1)
                } else if c == ']' {
                    arrow_from(a, i + 1, p, b, dec(k))
                } else if c == '{' {
                    arrow_from(a, i + 1, p, b + 1, k)
                } else if c == '}' {
                    arrow_from(a, i + 1, p, dec(b), k)
                } else if c == '=' && at_top(p, b, k) && i + 1 < a.len() && a[i + 1] == '>' {
                    Ok(Some((a.subrange(0, i), a.subrange(i + 2, a.len() as int))))
                } else {
                    arrow_from(a, i + 1, p, b, k)
                }
            },
        }
    }
}

/// A closure parameter without spaces and without one pair of enclosing parentheses.
pub open spec fn normalized_param(param: Seq<char>) -> Seq<char> {
    let t = trim_spec(param, false);
    if t.len() >= 2 && t[0] == '(' && t.last() == ')' {
        trim_spec(t.subrange(1, t.len() - 1), false)
    } else {
        t
    }
}

/// A closure body from `i` with every whole-word `param` replaced by `(*..param)`, with `n`
/// stars; strings, character literals and comments are copied, and an unclosed one is
/// copied to the end.
pub open spec fn deref_from(body: Seq<char>, i: int, param: Seq<char>, n: nat) -> Seq<char>
    decreases body.len() + 1 - i,
{
    if i < 0 || i >= body.len() {
        seq![]
    } else {
        match skip_at(body, i, true) {
            Some(Ok(e)) => if i < e <= body.len() {
                body.subrange(i, e) + deref_from(body, e, param, n)
            } else {
                seq![]
            },
            Some(Err(_)) => body.subrange(i, body.len() as int),
            None => if param.len() > 0 && keyword_at(body, i, param) {
                "("@ + stars(n) + param + ")"@ + deref_from(body, i + param.len(), param, n)
            } else {
                seq![body[i]] + deref_from(body, i + 1, param, n)
            },
        }
    }
}

/// A closure body with its parameter dereferenced `n` times where `n` is not zero and the
/// parameter is a plain identifier.
pub open spec fn closure_body(body: Seq<char>, param: Seq<char>, n: nat) -> Seq<char> {
    if n == 0 || !is_identifier_like(trim_spec(param, false)) {
        body
    } else {
        deref_from(body, 0, param, n)
    }
}

/// A character after which an expression can start.
pub open spec fn expression_boundary(c: char) -> bool {
    is_ws(c) || c == '=' || c == '(' || c == '[' || c == '{' || c == ',' || c == ';' || c == ':'
        || c == '+' || c == '-' || c == '*' || c == '/' || c == '%' || c == '!' || c == '&' || c
        == '|' || c == '^' || c == '<' || c == '>' || c == '?'
}

/// An expression can start at `i`: an identifier or `(` right after a boundary.
pub open spec fn expression_start(s: Seq<char>, i: int) -> bool {
    0 <= i < s.len() && (is_ident_start(s[i]) || s[i] == '(') && (i == 0 || expression_boundary(
        s[i - 1],
    ))
}

/// The text with its iterator helper chains rewritten: see `iter_from`.
pub open spec fn iter_spec(x: Seq<char>) -> Result<Seq<char>, char>
    decreases x.len(), 4int, 0int,
{
    iter_from(x, 0)
}

/// The rewriting of `s` from `i`: strings, character literals and comments are copied; where
/// an expression starts and holds a helper chain, the chain is rewritten.
pub open spec fn iter_from(s: Seq<char>, i: int) -> Result<Seq<char>, char>
    decreases s.len(), 3int, s.len() + 1 - i,
{
    if i < 0 || i >= s.len() {
        Ok(seq![])
    } else {
        match skip_at(s, i, true) {
            Some(Ok(e)) => if i < e <= s.len() {
                then(Ok(s.subrange(i, e)), iter_from(s, e))
            } else {
                Err('"')
            },
            Some(Err(c)) => Err(c),
            None => if expression_start(s, i) {
                match chain_spec(s, i) {
                    Err(c) => Err(c),
                    Ok(Some((end, text))) => if i < end <= s.len() {
                        then(Ok(text), iter_from(s, end))
                    } else {
                        Err('.')
                    },
                    Ok(None) => then(Ok(seq![s[i]]), iter_from(s, i + 1)),
                }
            } else {
                then(Ok(seq![s[i]]), iter_from(s, i + 1))
            },
        }
    }
}

/// The helper chain whose receiver starts at `start`: where it ends and its rewriting, or
/// `None` when the expression holds no helper call.
pub open spec fn chain_spec(s: Seq<char>, start: int) -> Result<Option<(int, Seq<char>)>, char>
    decreases s.len(), 2int, 0int,
{
    match helper_from(s, start, 0, 0, 0) {
        Err(c) => Err(c),
        Ok(None) => Ok(None),
        Ok(Some((dot, call))) => {
            let source = trim_spec(s.subrange(start, dot), false);
            if source.len() < s.len() && dot < call.2 <= s.len() {
                match iter_spec(source) {
                    Err(c) => Err(c),
                    Ok(receiver) => {
                        let kind = iterator_kind(receiver);
                        let base = if kind == IteratorKind::NeedsIter {
                            receiver + ".iter()"@
                        } else {
                            receiver
                        };
                        match chain_calls(s, call, kind) {
                            Err(c) => Err(c),
                            Ok((calls, end, last)) => Ok(
                                Some(
                                    (
                                        end,
                                        base + calls + (if last == HelperKind::MapHelper || last
                                            == HelperKind::Filter {
                                            ".collect()"@
                                        } else {
                                            seq![]
                                        }),
                                    ),
                                ),
                            ),
                        }
                    },
                }
            } else {
                Err('.')
            }
        },
    }
}

/// The helper calls from `call` on, each followed by the next one after optional spaces:
/// their text, where the last one ends and its kind.
pub open spec fn chain_calls(s: Seq<char>, call: CallView, iter: IteratorKind) -> Result<
    (Seq<char>, int, HelperKind),
    char,
>
    decreases s.len(), 1int, s.len() + 1 - call.2,
{
    match helper_argument(s.len() as int, call.1, call.0, iter) {
        Err(c) => Err(c),
        Ok(arg) => {
            let piece = rust_name(call.0) + "("@ + arg + ")"@;
            match parse_call(s, skip_ws(s, call.2)) {
                Err(c) => Err(c),
                Ok(None) => Ok((piece, call.2, call.0)),
                Ok(Some(next)) => if call.2 < next.2 <= s.len() {
                    match chain_calls(s, next, iter) {
                        Ok((rest, end, last)) => Ok((piece + rest, end, last)),
                        Err(c) => Err(c),
                    }
                } else {
                    Err('(')
                },
            }
        },
    }
}

/// A helper argument rewritten: a closure `param => body` becomes `|param| body` with the
/// body rewritten and the parameter dereferenced as the helper and the iteration need;
/// anything else is rewritten as a text of its own. Each rewritten piece is shorter than
/// `n`.
pub open spec fn helper_argument(n: int, arg: Seq<char>, kind: HelperKind, iter: IteratorKind) -> Result<
    Seq<char>,
    char,
>
    decreases n, 0int, 0int,
{
    match arrow_from(arg, 0, 0, 0, 0) {
        Err(c) => Err(c),
        Ok(Some((param, body))) => {
            let b = trim_spec(body, false);
            if b.len() < n {
                match iter_spec(b) {
                    Err(c) => Err(c),
                    Ok(rewritten) => {
                        let p = normalized_param(param);
                        Ok("|"@ + p + "| "@ + closure_body(rewritten, p, deref_count(kind, iter)))
                    },
                }
            } else {
                Err('=')
            }
        },
        Ok(None) => {
            let t = trim_spec(arg, false);
            if t.len() < n {
                iter_spec(t)
            } else {
                Err('=')
            }
        },
    }
}

/// A helper call in a text.
pub struct HelperCall {
    pub kind: HelperKind,
    pub argument: Vec<char>,
    pub end: usize,
}

pub open spec fn call_view(c: HelperCall) -> CallView {
    (c.kind, c.argument@, c.end as int)
}

pub open spec fn call_result(r: Result<Option<HelperCall>, char>) -> Result<Option<CallView>, char> {
    match r {
        Ok(Some(c)) => Ok(Some(call_view(c))),
        Ok(None) => Ok(None),
        Err(c) => Err(c),
    }
}

/// A helper call ends after its dot and inside the text.
pub proof fn lemma_call_bounds(s: Seq<char>, dot: int)
    ensures
        parse_call(s, dot) matches Ok(Some(call)) ==> dot < call.2 <= s.len() && call.1.len()
            < s.len(),
{
    if 0 <= dot < s.len() && s[dot] == '.' && dot + 1 < s.len() {
        let name_end = identifier_end(s, dot + 1);
        super::scan::lemma_identifier_end_bounds(s, dot + 1);
        let open = skip_ws(s, name_end);
        lemma_skip_ws_bounds(s, name_end);
        if open < s.len() && s[open] == '(' {
            lemma_skip_bounds(s, open, true);
            lemma_matching_bounds(s, open + 1, '(', ')', 1);
            match matching_from(s, open, '(', ')', 0) {
                Ok(close) => {
                    crate::project::manifest::lemma_trim_len(s.subrange(open + 1, close - 1), false);
                },
                Err(_) => {},
            }
        }
    }
}

/// The helper call whose `.` stands at `dot`: see `parse_call`.
pub fn parse_helper_call(s: &[char], dot: usize) -> (r: Result<Option<HelperCall>, char>)
    requires
        dot <= s@.len(),
    ensures
        call_result(r) == parse_call(s@, dot as int),
        r matches Ok(Some(c)) ==> dot < c.end <= s@.len() && c.argument@.len() < s@.len(),
{
    proof {
        lemma_call_bounds(s@, dot as int);
    }
    if !(dot < s.len() && s[dot] == '.') {
        return Ok(None);
    }
    if !(s.len() - dot > 1 && is_identifier_start(s[dot + 1])) {
        return Ok(None);
    }
    let name_end = scan_identifier(s, dot + 1);
    let mut name: Vec<char> = Vec::new();
    push_range(&mut name, s, dot + 1, name_end);
    let kind = match helper_of(string_of(&name).as_str()) {
        None => {
            return Ok(None);
        },
        Some(kind) => kind,
    };
    let open = skip_whitespace(s, name_end);
    if !(open < s.len() && s[open] == '(') {
        return Ok(None);
    }
    let close = match find_matching(s, open, '(', ')') {
        Err(c) => {
            return Err(c);
        },
        Ok(close) => close,
    };
    proof {
        lemma_skip_bounds(s@, open as int, true);
        lemma_matching_bounds(s@, open + 1, '(', ')', 1);
    }
    let mut inside: Vec<char> = Vec::new();
    push_range(&mut inside, s, open + 1, close - 1);
    let argument = trim_chars(&inside, false);
    Ok(Some(HelperCall { kind, argument, end: close }))
}

/// The first helper call of the expression that starts at `start`: see `helper_from`.
pub fn find_first_helper_call(s: &[char], start: usize) -> (r: Result<Option<(usize, HelperCall)>, char>)
    requires
        start <= s@.len(),
    ensures
        match r {
            Ok(Some((dot, call))) => helper_from(s@, start as int, 0, 0, 0) == Ok::<
                Option<(int, CallView)>,
                char,
            >(Some((dot as int, call_view(call)))) && start <= dot < call.end <= s@.len()
                && call.argument@.len() < s@.len(),
            Ok(None) => helper_from(s@, start as int, 0, 0, 0) == Ok::<Option<(int, CallView)>, char>(
                None,
            ),
            Err(c) => helper_from(s@, start as int, 0, 0, 0) == Err::<Option<(int, CallView)>, char>(c),
        },
{
    let mut p: usize = 0;
    let mut b: usize = 0;
    let mut k: usize = 0;
    let mut i = start;
    while i < s.len()
        invariant
            start <= i <= s@.len(),
            p + b + k <= i,
            helper_from(s@, start as int, 0, 0, 0) == helper_from(
                s@,
                i as int,
                p as nat,
                b as nat,
                k as nat,
            ),
        decreases s@.len() - i,
    {
        match skip_quoted(s, i, true) {
            Some(Ok(e)) => {
                i = e;
            },
            Some(Err(c)) => {
                return Err(c);
            },
            None => {
                let c = s[i];
                let top = p == 0 && b == 0 && k == 0;
                if c == '(' {
                    p += 1;
                } else if c == ')' {
                    if top {
                        return Ok(None);
                    }
                    if p > 0 {
                        p -= 1;
                    }
                } else if c == '[' {
                    k += 1;
                } else if c == ']' {
                    if top {
                        return Ok(None);
                    }
                    if k > 0 {
                        k -= 1;
                    }
                } else if c == '{' {
                    b += 1;
                } else if c == '}' {
                    if top {
                        return Ok(None);
                    }
                    if b > 0 {
                        b -= 1;
                    }
                } else if (c == ';' || c == ',') && top {
                    return Ok(None);
                } else if c == '.' && top {
                    match parse_helper_call(s, i) {
                        Err(c) => {
                            return Err(c);
                        },
                        Ok(Some(call)) => {
                            return Ok(Some((i, call)));
                        },
                        Ok(None) => {},
                    }
                }
                i += 1;
            },
        }
    }
    Ok(None)
}

/// The parameter and the body around the first top-level `=>` of a helper argument.
pub fn split_arrow(a: &[char]) -> (r: Result<Option<(Vec<char>, Vec<char>)>, char>)
    ensures
        match r {
            Ok(Some((param, body))) => arrow_from(a@, 0, 0, 0, 0) == Ok::<
                Option<(Seq<char>, Seq<char>)>,
                char,
            >(Some((param@, body@))) && body@.len() < a@.len(),
            Ok(None) => arrow_from(a@, 0, 0, 0, 0) == Ok::<Option<(Seq<char>, Seq<char>)>, char>(
                None,
            ),
            Err(c) => arrow_from(a@, 0, 0, 0, 0) == Err::<Option<(Seq<char>, Seq<char>)>, char>(c),
        },
{
    let mut p: usize = 0;
    let mut b: usize = 0;
    let mut k: usize = 0;
    let mut i: usize = 0;
    while i < a.len()
        invariant
            i <= a@.len(),
            p + b + k <= i,
            arrow_from(a@, 0, 0, 0, 0) == arrow_from(a@, i as int, p as nat, b as nat, k as nat),
        decreases a@.len() - i,
    {
        match skip_quoted(a, i, true) {
            Some(Ok(e)) => {
                i = e;
            },
            Some(Err(c)) => {
                return Err(c);
            },
            None => {
                let c = a[i];
                if c == '(' {
                    p += 1;
                } else if c == ')' {
                    if p > 0 {
                        p -= 1;
                    }
                } else if c == '[' {
                    k += 1;
                } else if c == ']' {
                    if k > 0 {
                        k -= 1;
                    }
                } else if c == '{' {
                    b += 1;
                } else if c == '}' {
                    if b > 0 {
                        b -= 1;
                    }
                } else if c == '=' && p == 0 && b == 0 && k == 0 && a.len() - i > 1 && a[i + 1]
                    == '>' {
                    let mut param: Vec<char> = Vec::new();
                    push_range(&mut param, a, 0, i);
                    let mut body: Vec<char> = Vec::new();
                    push_range(&mut body, a, i + 2, a.len());
                    return Ok(Some((param, body)));
                }
                i += 1;
            },
        }
    }
    Ok(None)
}

/// A closure parameter without spaces and one pair of enclosing parentheses.
pub fn normalize_closure_param(param: &[char]) -> (r: Vec<char>)
    ensures
        r@ == normalized_param(param@),
{
    let t = trim_chars(param, false);
    if t.len() >= 2 && t[0] == '(' && t[t.len() - 1] == ')' {
        let mut inner: Vec<char> = Vec::new();
        push_range(&mut inner, &t, 1, t.len() - 1);
        trim_chars(&inner, false)
    } else {
        t
    }
}

/// Whether the trimmed parameter is a plain identifier.
pub fn is_simple_param(param: &[char]) -> (b: bool)
    ensures
        b == is_identifier_like(trim_spec(param@, false)),
{
    let t = trim_chars(param, false);
    identifier_like(&t)
}

/// Appends `(` followed by `n` stars, the parameter and `)`.
pub fn push_deref_expr(out: &mut Vec<char>, param: &[char], n: usize)
    ensures
        final(out)@ == old(out)@ + ("("@ + stars(n as nat) + param@ + ")"@),
{
    let ghost start = out@;
    out.push('(');
    let mut k: usize = 0;
    while k < n
        invariant
            k <= n,
            out@ == start + seq!['('] + stars(k as nat),
        decreases n - k,
    {
        out.push('*');
        k += 1;
        assert(out@ =~= start + seq!['('] + stars(k as nat));
    }
    push_all(out, param);
    out.push(')');
    assert(out@ =~= start + ("("@ + stars(n as nat) + param@ + ")"@)) by {
        reveal_strlit("(");
        reveal_strlit(")");
    }
}

/// The closure body with its parameter dereferenced: see `closure_body`.
pub fn rewrite_closure_body(body: &[char], param: &[char], n: usize) -> (r: Vec<char>)
    ensures
        r@ == closure_body(body@, param@, n as nat),
{
    let mut out: Vec<char> = Vec::new();
    if n == 0 || !is_simple_param(param) {
        push_all(&mut out, body);
        assert(out@ =~= body@);
        return out;
    }
    let mut i: usize = 0;
    assert(out@ + deref_from(body@, 0, param@, n as nat) =~= deref_from(body@, 0, param@, n as nat));
    while i < body.len()
        invariant
            i <= body@.len(),
            n > 0,
            is_identifier_like(trim_spec(param@, false)),
            deref_from(body@, 0, param@, n as nat) == out@ + deref_from(
                body@,
                i as int,
                param@,
                n as nat,
            ),
        decreases body@.len() - i,
    {
        let ghost before = out@;
        match skip_quoted(body, i, true) {
            Some(Ok(e)) => {
                push_range(&mut out, body, i, e);
                assert(out@ + deref_from(body@, e as int, param@, n as nat) =~= before + (
                body@.subrange(i as int, e as int) + deref_from(body@, e as int, param@, n as nat)));
                i = e;
            },
            Some(Err(_)) => {
                push_range(&mut out, body, i, body.len());
                assert(deref_from(body@, i as int, param@, n as nat) == body@.subrange(
                    i as int,
                    body@.len() as int,
                ));
                return out;
            },
            None => {
                if param.len() > 0 && param.len() <= body.len() - i && starts_with_keyword(
                    body,
                    i,
                    param,
                ) {
                    push_deref_expr(&mut out, param, n);
                    assert(out@ + deref_from(body@, i + param@.len(), param@, n as nat) =~= before
                        + (("("@ + stars(n as nat) + param@ + ")"@) + deref_from(
                        body@,
                        i + param@.len(),
                        param@,
                        n as nat,
                    )));
                    i += param.len();
                } else {
                    out.push(body[i]);
                    assert(out@ + deref_from(body@, i + 1, param@, n as nat) =~= before + (seq![
                        body@[i as int],
                    ] + deref_from(body@, i + 1, param@, n as nat)));
                    i += 1;
                }
            },
        }
    }
    assert(out@ + Seq::<char>::empty() =~= out@);
    out
}

/// Whether an expression can start at `i`: see `expression_start`.
pub fn is_expression_start(s: &[char], i: usize) -> (b: bool)
    requires
        i < s@.len(),
    ensures
        b == expression_start(s@, i as int),
{
    let c = s[i];
    (is_identifier_start(c) || c == '(') && (i == 0 || is_expression_boundary(s[i - 1]))
}

/// Whether an expression can start after `c`.
pub fn is_expression_boundary(c: char) -> (b: bool)
    ensures
        b == expression_boundary(c),
{
    is_whitespace(c) || c == '=' || c == '(' || c == '[' || c == '{' || c == ',' || c == ';' || c
        == ':' || c == '+' || c == '-' || c == '*' || c == '/' || c == '%' || c == '!' || c == '&'
        || c == '|' || c == '^' || c == '<' || c == '>' || c == '?'
}

/// A helper argument rewritten: see `helper_argument`.
pub fn rewrite_helper_argument(
    arg: &[char],
    kind: HelperKind,
    iter: IteratorKind,
    Ghost(n): Ghost<int>,
) -> (r: Result<Vec<char>, char>)
    requires
        arg@.len() < n,
    ensures
        chars_result(r) == helper_argument(n, arg@, kind, iter),
    decreases n, 1int, 0int,
{
    match split_arrow(arg) {
        Err(c) => Err(c),
        Ok(Some((param, body))) => {
            let b = trim_chars(&body, false);
            let rewritten = match iterator_chars(&b) {
                Err(c) => {
                    return Err(c);
                },
                Ok(rw) => rw,
            };
            let p = normalize_closure_param(&param);
            let derefs = deref_count_of(kind, iter);
            let closure = rewrite_closure_body(&rewritten, &p, derefs);
            let mut out: Vec<char> = Vec::new();
            push_str(&mut out, "|");
            push_all(&mut out, &p);
            push_str(&mut out, "| ");
            push_all(&mut out, &closure);
            Ok(out)
        },
        Ok(None) => {
            let t = trim_chars(arg, false);
            iterator_chars(&t)
        },
    }
}

/// The helper calls from `call` on: see `chain_calls`.
pub fn chain_text(s: &[char], call: HelperCall, iter: IteratorKind) -> (r: Result<
    (Vec<char>, usize, HelperKind),
    char,
>)
    requires
        call.end <= s@.len(),
        call.argument@.len() < s@.len(),
    ensures
        match r {
            Ok((text, end, last)) => chain_calls(s@, call_view(call), iter) == Ok::<
                (Seq<char>, int, HelperKind),
                char,
            >((text@, end as int, last)) && end <= s@.len(),
            Err(c) => chain_calls(s@, call_view(call), iter) == Err::<
                (Seq<char>, int, HelperKind),
                char,
            >(c),
        },
    decreases s@.len(), 2int, s@.len() + 1 - call.end,
{
    let arg = match rewrite_helper_argument(&call.argument, call.kind, iter, Ghost(s@.len() as int)) {
        Err(c) => {
            return Err(c);
        },
        Ok(arg) => arg,
    };
    let mut piece: Vec<char> = Vec::new();
    push_str(&mut piece, rust_name_of(call.kind));
    push_str(&mut piece, "(");
    push_all(&mut piece, &arg);
    push_str(&mut piece, ")");
    let next_at = skip_whitespace(s, call.end);
    match parse_helper_call(s, next_at) {
        Err(c) => Err(c),
        Ok(None) => Ok((piece, call.end, call.kind)),
        Ok(Some(next)) => {
            proof {
                lemma_skip_ws_bounds(s@, call.end as int);
            }
            match chain_text(s, next, iter) {
                Err(c) => Err(c),
                Ok((rest, end, last)) => {
                    push_all(&mut piece, &rest);
                    Ok((piece, end, last))
                },
            }
        },
    }
}

/// The helper chain whose receiver starts at `start`: see `chain_spec`.
pub fn rewrite_chain_from(s: &[char], start: usize) -> (r: Result<Option<(usize, Vec<char>)>, char>)
    requires
        start <= s@.len(),
    ensures
        match r {
            Ok(Some((end, text))) => chain_spec(s@, start as int) == Ok::<
                Option<(int, Seq<char>)>,
                char,
            >(Some((end as int, text@))) && end <= s@.len(),
            Ok(None) => chain_spec(s@, start as int) == Ok::<Option<(int, Seq<char>)>, char>(None),
            Err(c) => chain_spec(s@, start as int) == Err::<Option<(int, Seq<char>)>, char>(c),
        },
    decreases s@.len(), 3int, 0int,
{
    let (dot, call) = match find_first_helper_call(s, start) {
        Err(c) => {
            return Err(c);
        },
        Ok(None) => {
            return Ok(None);
        },
        Ok(Some(found)) => found,
    };
    let mut piece: Vec<char> = Vec::new();
    push_range(&mut piece, s, start, dot);
    let source = trim_chars(&piece, false);
    let mut rewritten = match iterator_chars(&source) {
        Err(c) => {
            return Err(c);
        },
        Ok(rw) => rw,
    };
    let kind = iterator_kind_of(&rewritten);
    if kind == IteratorKind::NeedsIter {
        push_str(&mut rewritten, ".iter()");
    }
    let (calls, end, last) = match chain_text(s, call, kind) {
        Err(c) => {
            return Err(c);
        },
        Ok(t) => t,
    };
    push_all(&mut rewritten, &calls);
    if last == HelperKind::MapHelper || last == HelperKind::Filter {
        push_str(&mut rewritten, ".collect()");
    }
    Ok(Some((end, rewritten)))
}

/// One step of `iter_from` at `i`: the rewritten piece and where the rest starts.
fn iter_step(s: &[char], i: usize) -> (r: Result<(Vec<char>, usize), char>)
    requires
        i < s@.len(),
    ensures
        r matches Ok((piece, e)) ==> i < e <= s@.len() && iter_from(s@, i as int) == then(
            Ok(piece@),
            iter_from(s@, e as int),
        ),
        r matches Err(c) ==> iter_from(s@, i as int) == Err::<Seq<char>, char>(c),
    decreases s@.len(), 4int, 0int,
{
    match skip_quoted(s, i, true) {
        Some(Ok(e)) => {
            let mut piece: Vec<char> = Vec::new();
            push_range(&mut piece, s, i, e);
            return Ok((piece, e));
        },
        Some(Err(c)) => {
            return Err(c);
        },
        None => {},
    }
    if is_expression_start(s, i) {
        match rewrite_chain_from(s, i) {
            Err(c) => {
                return Err(c);
            },
            Ok(Some((end, text))) => {
                if i < end {
                    return Ok((text, end));
                }
                return Err('.');
            },
            Ok(None) => {},
        }
    }
    let mut piece: Vec<char> = Vec::new();
    piece.push(s[i]);
    assert(piece@ =~= seq![s@[i as int]]);
    Ok((piece, i + 1))
}

/// The text with its iterator helper chains rewritten: see `iter_from`.
pub fn iterator_chars(s: &[char]) -> (r: Result<Vec<char>, char>)
    ensures
        chars_result(r) == iter_spec(s@),
    decreases s@.len(), 5int, 0int,
{
    let mut out: Vec<char> = Vec::new();
    let mut i: usize = 0;
    proof {
        lemma_prefixed_empty(iter_from(s@, 0));
    }
    while i < s.len()
        invariant
            i <= s@.len(),
            iter_spec(s@) == prefixed(out@, iter_from(s@, i as int)),
        decreases s@.len() - i,
    {
        let ghost before = out@;
        let (piece, e) = match iter_step(s, i) {
            Err(c) => {
                return Err(c);
            },
            Ok(pe) => pe,
        };
        push_all(&mut out, &piece);
        proof {
            lemma_prefixed_then(before, piece@, iter_from(s@, e as int));
        }
        i = e;
    }
    assert(iter_from(s@, i as int) == Ok::<Seq<char>, char>(seq![]));
    assert(out@ + seq![] =~= out@);
    Ok(out)
}

/// Rewrites the iterator helper chains of a source text: see `iter_from`.
pub fn rewrite_iterator_helpers(source: &str) -> (r: Result<String, TranspileError>)
    ensures
        text_result(r) == iter_spec(source@),
        r matches Err(e) ==> e is UnclosedDelimiter,
{
    let s = chars_of(source);
    match iterator_chars(&s) {
        Ok(out) => Ok(string_of(&out)),
        Err(c) => Err(TranspileError::UnclosedDelimiter(c)),
    }
}

} // verus!
