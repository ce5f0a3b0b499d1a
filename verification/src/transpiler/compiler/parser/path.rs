//! The grammar of expression paths: `ident ("::" ident)*`.
use crate::transpiler::compiler::ast::{PathExpr, strings_view};
use crate::transpiler::compiler::lexer::{Token, TokenKind, TokenView};
use super::tokens::{is_kind, is_text, kind_at, text_at, tv};
use vstd::prelude::*;

verus! {

pub open spec fn parse_path(t: Seq<TokenView>, p: int) -> Option<(Seq<Seq<char>>, int)> {
    if kind_at(t, p, TokenKind::Ident) {
        Some(parse_path_tail(t, p + 1, seq![t[p].text]))
    } else {
        None
    }
}

pub open spec fn parse_path_tail(t: Seq<TokenView>, p: int, segments: Seq<Seq<char>>) -> (
    Seq<Seq<char>>,
    int,
)
    decreases t.len() - p,
{
    if 0 <= p && text_at(t, p, "::"@) && kind_at(t, p + 1, TokenKind::Ident) {
        parse_path_tail(t, p + 2, segments.push(t[p + 1].text))
    } else {
        (segments, p)
    }
}

pub fn path_parser(t: &[Token], p: usize) -> (r: Option<(PathExpr, usize)>)
    requires
        p <= t@.len(),
    ensures
        match r {
            Some((path, end)) => parse_path(tv(t), p as int) == Some(
                (strings_view(path.segments@), end as int),
            ),
            None => parse_path(tv(t), p as int) is None,
        },
        r matches Some((_, end)) ==> p < end <= t@.len(),
{
    if !is_kind(t, p, TokenKind::Ident) {
        return None;
    }
    let mut segments: Vec<String> = Vec::new();
    segments.push(t[p].text.clone());
    let mut q = p + 1;
    assert(strings_view(segments@) =~= seq![tv(t)[p as int].text]);
    while t.len() - q > 1 && is_text(t, q, "::") && is_kind(t, q + 1, TokenKind::Ident)
        invariant
            p < q <= t@.len(),
            parse_path(tv(t), p as int) == Some(
                parse_path_tail(tv(t), q as int, strings_view(segments@)),
            ),
        decreases t@.len() - q,
    {
        let ghost before = segments@;
        segments.push(t[q + 1].text.clone());
        assert(strings_view(segments@) =~= strings_view(before).push(tv(t)[q + 1].text));
        q = q + 2;
    }
    Some((PathExpr { segments }, q))
}

} // verus!
