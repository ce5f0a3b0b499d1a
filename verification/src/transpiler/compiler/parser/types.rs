//! The grammar of types:
//! `type := "&" lifetime? "mut"? type | segment ("::" segment)*`,
//! `segment := ident ("<" type ("," type)* ","? ">")?`.
use crate::transpiler::compiler::ast::{
    SSegment, SType, TypeExpr, TypePath, TypeSegment, segments_view, type_view, types_view,
};
use crate::transpiler::compiler::lexer::{Token, TokenKind, TokenView};
use super::tokens::{is_keyword, is_kind, is_text, keyword_at, kind_at, text_at, tv};
use vstd::prelude::*;

verus! {

pub open spec fn parse_type(t: Seq<TokenView>, p: int) -> Option<(SType, int)>
    decreases t.len() - p, 4int,
{
    if p < 0 || p >= t.len() {
        None
    } else if kind_at(t, p, TokenKind::Ampersand) {
        let lifetime = if kind_at(t, p + 1, TokenKind::Lifetime) {
            Some(t[p + 1].text)
        } else {
            None
        };
        let after_lifetime = if kind_at(t, p + 1, TokenKind::Lifetime) {
            p + 2
        } else {
            p + 1
        };
        let mutable = keyword_at(t, after_lifetime, "mut"@);
        let after_mut = if mutable {
            after_lifetime + 1
        } else {
            after_lifetime
        };
        match parse_type(t, after_mut) {
            Some((inner, end)) => Some((SType::Reference(lifetime, mutable, Box::new(inner)), end)),
            None => None,
        }
    } else {
        parse_type_path(t, p)
    }
}

pub open spec fn parse_type_path(t: Seq<TokenView>, p: int) -> Option<(SType, int)>
    decreases t.len() - p, 3int,
{
    if p < 0 || p >= t.len() {
        None
    } else {
        match parse_segment(t, p) {
            Some((first, end)) => if p < end <= t.len() {
                parse_path_rest(t, end, seq![first])
            } else {
                None
            },
            None => None,
        }
    }
}

pub open spec fn parse_path_rest(t: Seq<TokenView>, p: int, segments: Seq<SSegment>) -> Option<
    (SType, int),
>
    decreases t.len() - p, 3int,
{
    if 0 <= p < t.len() && text_at(t, p, "::"@) {
        match parse_segment(t, p + 1) {
            Some((next, end)) => if p < end <= t.len() {
                parse_path_rest(t, end, segments.push(next))
            } else {
                None
            },
            None => Some((SType::Path(segments), p)),
        }
    } else {
        Some((SType::Path(segments), p))
    }
}

pub open spec fn parse_segment(t: Seq<TokenView>, p: int) -> Option<(SSegment, int)>
    decreases t.len() - p, 2int,
{
    if kind_at(t, p, TokenKind::Ident) {
        match parse_generics(t, p + 1) {
            Some((generics, end)) => Some((SSegment { name: t[p].text, generics }, end)),
            None => Some((SSegment { name: t[p].text, generics: seq![] }, p + 1)),
        }
    } else {
        None
    }
}

pub open spec fn parse_generics(t: Seq<TokenView>, p: int) -> Option<(Seq<SType>, int)>
    decreases t.len() - p, 1int,
{
    if 0 <= p < t.len() && text_at(t, p, "<"@) {
        let (types, end) = parse_type_list(t, p + 1);
        if text_at(t, end, ">"@) {
            Some((types, end + 1))
        } else {
            None
        }
    } else {
        None
    }
}

/// Types separated by commas, with a trailing comma allowed.
pub open spec fn parse_type_list(t: Seq<TokenView>, p: int) -> (Seq<SType>, int)
    decreases t.len() - p, 5int,
{
    if p < 0 || p > t.len() {
        (seq![], p)
    } else {
        match parse_type(t, p) {
            Some((first, end)) => if p < end <= t.len() {
                parse_type_list_rest(t, end, seq![first])
            } else {
                (seq![], p)
            },
            None => (seq![], p),
        }
    }
}

pub open spec fn parse_type_list_rest(t: Seq<TokenView>, p: int, types: Seq<SType>) -> (
    Seq<SType>,
    int,
)
    decreases t.len() - p, 5int,
{
    if 0 <= p < t.len() && kind_at(t, p, TokenKind::Comma) {
        match parse_type(t, p + 1) {
            Some((next, end)) => if p < end <= t.len() {
                parse_type_list_rest(t, end, types.push(next))
            } else {
                (types, p)
            },
            None => (types, p + 1),
        }
    } else {
        (types, p)
    }
}

pub open spec fn type_result(r: Option<(TypeExpr, usize)>) -> Option<(SType, int)> {
    match r {
        Some((ty, end)) => Some((type_view(ty), end as int)),
        None => None,
    }
}

pub fn type_parser(t: &[Token], p: usize) -> (r: Option<(TypeExpr, usize)>)
    requires
        p <= t@.len(),
    ensures
        type_result(r) == parse_type(tv(t), p as int),
        r matches Some((_, end)) ==> p < end <= t@.len(),
    decreases t@.len() - p, 4int,
{
    if p >= t.len() {
        return None;
    }
    if is_kind(t, p, TokenKind::Ampersand) {
        let has_lifetime = is_kind(t, p + 1, TokenKind::Lifetime);
        let lifetime = if has_lifetime {
            Some(t[p + 1].text.clone())
        } else {
            None
        };
        let after_lifetime = if has_lifetime {
            p + 2
        } else {
            p + 1
        };
        let mutable = is_keyword(t, after_lifetime, "mut");
        let after_mut = if mutable {
            after_lifetime + 1
        } else {
            after_lifetime
        };
        match type_parser(t, after_mut) {
            Some((inner, end)) => {
                let ty = TypeExpr::Reference { lifetime, mutable, inner: Box::new(inner) };
                Some((ty, end))
            },
            None => None,
        }
    } else {
        type_path_parser(t, p)
    }
}

fn type_path_parser(t: &[Token], p: usize) -> (r: Option<(TypeExpr, usize)>)
    requires
        p < t@.len(),
    ensures
        type_result(r) == parse_type_path(tv(t), p as int),
        r matches Some((_, end)) ==> p < end <= t@.len(),
    decreases t@.len() - p, 3int,
{
    match segment_parser(t, p) {
        Some((first, end)) => {
            if end > p {
                let mut segments: Vec<TypeSegment> = Vec::new();
                segments.push(first);
                assert(segments@.drop_last() =~= Seq::<TypeSegment>::empty());
                assert(segments_view(Seq::<TypeSegment>::empty()) =~= Seq::<SSegment>::empty());
                assert(segments_view(segments@) =~= seq![
                    SSegment { name: segments@[0].name@, generics: types_view(segments@[0].generics@) },
                ]);
                path_rest_parser(t, end, segments)
            } else {
                None
            }
        },
        None => None,
    }
}

fn path_rest_parser(t: &[Token], p: usize, segments: Vec<TypeSegment>) -> (r: Option<
    (TypeExpr, usize),
>)
    requires
        p <= t@.len(),
    ensures
        type_result(r) == parse_path_rest(tv(t), p as int, segments_view(segments@)),
        r matches Some((_, end)) ==> p <= end <= t@.len(),
    decreases t@.len() - p, 3int,
{
    let mut segments = segments;
    if p < t.len() && is_text(t, p, "::") {
        match segment_parser(t, p + 1) {
            Some((next, end)) => {
                if end > p {
                    let ghost before = segments@;
                    segments.push(next);
                    assert(segments@.drop_last() == before);
                    path_rest_parser(t, end, segments)
                } else {
                    None
                }
            },
            None => Some((TypeExpr::Path(TypePath { segments }), p)),
        }
    } else {
        Some((TypeExpr::Path(TypePath { segments }), p))
    }
}

fn segment_parser(t: &[Token], p: usize) -> (r: Option<(TypeSegment, usize)>)
    requires
        p <= t@.len(),
    ensures
        match r {
            Some((seg, end)) => parse_segment(tv(t), p as int) == Some(
                (SSegment { name: seg.name@, generics: types_view(seg.generics@) }, end as int),
            ),
            None => parse_segment(tv(t), p as int) is None,
        },
        r matches Some((_, end)) ==> p < end <= t@.len(),
    decreases t@.len() - p, 2int,
{
    if is_kind(t, p, TokenKind::Ident) {
        let name = t[p].text.clone();
        match generics_parser(t, p + 1) {
            Some((generics, end)) => Some((TypeSegment { name, generics }, end)),
            None => {
                let generics: Vec<TypeExpr> = Vec::new();
                assert(types_view(generics@) == Seq::<SType>::empty());
                Some((TypeSegment { name, generics }, p + 1))
            },
        }
    } else {
        None
    }
}

fn generics_parser(t: &[Token], p: usize) -> (r: Option<(Vec<TypeExpr>, usize)>)
    requires
        p <= t@.len(),
    ensures
        match r {
            Some((types, end)) => parse_generics(tv(t), p as int) == Some(
                (types_view(types@), end as int),
            ),
            None => parse_generics(tv(t), p as int) is None,
        },
        r matches Some((_, end)) ==> p < end <= t@.len(),
    decreases t@.len() - p, 1int,
{
    if p < t.len() && is_text(t, p, "<") {
        let (types, end) = type_list_parser(t, p + 1);
        if is_text(t, end, ">") {
            Some((types, end + 1))
        } else {
            None
        }
    } else {
        None
    }
}

fn type_list_parser(t: &[Token], p: usize) -> (r: (Vec<TypeExpr>, usize))
    requires
        p <= t@.len(),
    ensures
        (types_view(r.0@), r.1 as int) == parse_type_list(tv(t), p as int),
        p <= r.1 <= t@.len(),
    decreases t@.len() - p, 5int,
{
    match type_parser(t, p) {
        Some((first, end)) => {
            if end > p {
                let mut types: Vec<TypeExpr> = Vec::new();
                types.push(first);
                assert(types@.drop_last() =~= Seq::<TypeExpr>::empty());
                assert(types_view(Seq::<TypeExpr>::empty()) =~= Seq::<SType>::empty());
                assert(types_view(types@) =~= seq![type_view(types@[0])]);
                type_list_rest_parser(t, end, types)
            } else {
                let v: Vec<TypeExpr> = Vec::new();
                assert(types_view(v@) =~= Seq::<SType>::empty());
                (v, p)
            }
        },
        None => {
            let v: Vec<TypeExpr> = Vec::new();
            assert(types_view(v@) =~= Seq::<SType>::empty());
            (v, p)
        },
    }
}

fn type_list_rest_parser(t: &[Token], p: usize, types: Vec<TypeExpr>) -> (r: (
    Vec<TypeExpr>,
    usize,
))
    requires
        p <= t@.len(),
    ensures
        (types_view(r.0@), r.1 as int) == parse_type_list_rest(
            tv(t),
            p as int,
            types_view(types@),
        ),
        p <= r.1 <= t@.len(),
    decreases t@.len() - p, 5int,
{
    let mut types = types;
    if p < t.len() && is_kind(t, p, TokenKind::Comma) {
        match type_parser(t, p + 1) {
            Some((next, end)) => {
                if end > p {
                    let ghost before = types@;
                    types.push(next);
                    assert(types@.drop_last() == before);
                    type_list_rest_parser(t, end, types)
                } else {
                    (types, p)
                }
            },
            None => (types, p + 1),
        }
    } else {
        (types, p)
    }
}

} // verus!
