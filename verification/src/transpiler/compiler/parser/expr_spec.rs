//! The grammar of expressions, from loosest to tightest binding:
//! `||`, `&&`, comparisons, `+ -`, `* / %`, prefix `& ! -` and `return`, then postfix calls,
//! indexing, fields and method calls on atoms. Every binary level folds to the left.
//! Alternatives are tried in order and the first that succeeds wins; repetitions are greedy.
use crate::transpiler::compiler::ast::{BinaryOp, Expr, SEntry, SExpr, UnaryOp, expr_view};
use crate::transpiler::compiler::lexer::{TokenKind, TokenView};
use crate::transpiler::error::Span;
use super::path::parse_path;
use super::tokens::{keyword_at, kind_at, text_at};
use vstd::prelude::*;

verus! {

pub open spec fn in_range(t: Seq<TokenView>, p: int) -> bool {
    0 <= p <= t.len()
}

/// `p < end <= t.len()`: the parser moved forward and stayed in the tokens.
pub open spec fn advanced(t: Seq<TokenView>, p: int, end: int) -> bool {
    p < end <= t.len()
}

pub open spec fn expr_result(r: Option<(Expr, usize)>) -> Option<(SExpr, int)> {
    match r {
        Some((e, end)) => Some((expr_view(e), end as int)),
        None => None,
    }
}

pub open spec fn binary(lhs: SExpr, op: BinaryOp, rhs: SExpr) -> SExpr {
    SExpr::Binary(Box::new(lhs), op, Box::new(rhs))
}

pub open spec fn product_op(t: Seq<TokenView>, p: int) -> Option<BinaryOp> {
    if text_at(t, p, "*"@) {
        Some(BinaryOp::Mul)
    } else if text_at(t, p, "/"@) {
        Some(BinaryOp::Div)
    } else if text_at(t, p, "%"@) {
        Some(BinaryOp::Rem)
    } else {
        None
    }
}

pub open spec fn sum_op(t: Seq<TokenView>, p: int) -> Option<BinaryOp> {
    if text_at(t, p, "+"@) {
        Some(BinaryOp::Add)
    } else if text_at(t, p, "-"@) {
        Some(BinaryOp::Sub)
    } else {
        None
    }
}

pub open spec fn compare_op(t: Seq<TokenView>, p: int) -> Option<BinaryOp> {
    if text_at(t, p, ">="@) {
        Some(BinaryOp::Ge)
    } else if text_at(t, p, "<="@) {
        Some(BinaryOp::Le)
    } else if text_at(t, p, "=="@) {
        Some(BinaryOp::Eq)
    } else if text_at(t, p, "!="@) {
        Some(BinaryOp::NotEq)
    } else if text_at(t, p, ">"@) {
        Some(BinaryOp::Gt)
    } else if text_at(t, p, "<"@) {
        Some(BinaryOp::Lt)
    } else {
        None
    }
}

pub open spec fn and_op(t: Seq<TokenView>, p: int) -> Option<BinaryOp> {
    if text_at(t, p, "&&"@) {
        Some(BinaryOp::And)
    } else {
        None
    }
}

pub open spec fn or_op(t: Seq<TokenView>, p: int) -> Option<BinaryOp> {
    if text_at(t, p, "||"@) {
        Some(BinaryOp::Or)
    } else {
        None
    }
}

pub open spec fn prefix_op(t: Seq<TokenView>, p: int) -> Option<UnaryOp> {
    if kind_at(t, p, TokenKind::Ampersand) {
        Some(UnaryOp::Ref)
    } else if kind_at(t, p, TokenKind::Bang) {
        Some(UnaryOp::Not)
    } else if text_at(t, p, "-"@) {
        Some(UnaryOp::Neg)
    } else {
        None
    }
}

/// The end of the run of prefix operators from `p`.
pub open spec fn prefix_end(t: Seq<TokenView>, p: int) -> int
    decreases t.len() - p,
{
    if 0 <= p < t.len() && prefix_op(t, p) is Some {
        prefix_end(t, p + 1)
    } else {
        p
    }
}

/// The prefix operators at `p..end`, outermost first.
pub open spec fn prefix_ops(t: Seq<TokenView>, p: int, end: int) -> Seq<UnaryOp> {
    Seq::new((end - p) as nat, |i: int| prefix_op(t, p + i).unwrap())
}

/// `ops` applied to `e`, the first operator outermost.
pub open spec fn fold_unary(ops: Seq<UnaryOp>, e: SExpr) -> SExpr
    decreases ops.len(),
{
    if ops.len() == 0 {
        e
    } else {
        SExpr::Unary(ops[0], Box::new(fold_unary(ops.drop_first(), e)))
    }
}

pub closed spec fn parse_expr(t: Seq<TokenView>, p: int) -> Option<(SExpr, int)>
    decreases t.len() - p, 20int,
{
    if !in_range(t, p) {
        None
    } else {
        parse_or(t, p)
    }
}

pub closed spec fn parse_or(t: Seq<TokenView>, p: int) -> Option<(SExpr, int)>
    decreases t.len() - p, 19int,
{
    if !in_range(t, p) {
        None
    } else {
        match parse_and(t, p) {
            Some((lhs, end)) => if advanced(t, p, end) {
                parse_or_rest(t, end, lhs)
            } else {
                None
            },
            None => None,
        }
    }
}

pub closed spec fn parse_or_rest(t: Seq<TokenView>, p: int, lhs: SExpr) -> Option<(SExpr, int)>
    decreases t.len() - p, 19int,
{
    if in_range(t, p) && or_op(t, p) is Some {
        match parse_and(t, p + 1) {
            Some((rhs, end)) => if advanced(t, p, end) {
                parse_or_rest(t, end, binary(lhs, or_op(t, p).unwrap(), rhs))
            } else {
                None
            },
            None => Some((lhs, p)),
        }
    } else {
        Some((lhs, p))
    }
}

pub closed spec fn parse_and(t: Seq<TokenView>, p: int) -> Option<(SExpr, int)>
    decreases t.len() - p, 17int,
{
    if !in_range(t, p) {
        None
    } else {
        match parse_compare(t, p) {
            Some((lhs, end)) => if advanced(t, p, end) {
                parse_and_rest(t, end, lhs)
            } else {
                None
            },
            None => None,
        }
    }
}

pub closed spec fn parse_and_rest(t: Seq<TokenView>, p: int, lhs: SExpr) -> Option<(SExpr, int)>
    decreases t.len() - p, 17int,
{
    if in_range(t, p) && and_op(t, p) is Some {
        match parse_compare(t, p + 1) {
            Some((rhs, end)) => if advanced(t, p, end) {
                parse_and_rest(t, end, binary(lhs, and_op(t, p).unwrap(), rhs))
            } else {
                None
            },
            None => Some((lhs, p)),
        }
    } else {
        Some((lhs, p))
    }
}

pub closed spec fn parse_compare(t: Seq<TokenView>, p: int) -> Option<(SExpr, int)>
    decreases t.len() - p, 15int,
{
    if !in_range(t, p) {
        None
    } else {
        match parse_sum(t, p) {
            Some((lhs, end)) => if advanced(t, p, end) {
                parse_compare_rest(t, end, lhs)
            } else {
                None
            },
            None => None,
        }
    }
}

pub closed spec fn parse_compare_rest(t: Seq<TokenView>, p: int, lhs: SExpr) -> Option<
    (SExpr, int),
>
    decreases t.len() - p, 15int,
{
    if in_range(t, p) && compare_op(t, p) is Some {
        match parse_sum(t, p + 1) {
            Some((rhs, end)) => if advanced(t, p, end) {
                parse_compare_rest(t, end, binary(lhs, compare_op(t, p).unwrap(), rhs))
            } else {
                None
            },
            None => Some((lhs, p)),
        }
    } else {
        Some((lhs, p))
    }
}

pub closed spec fn parse_sum(t: Seq<TokenView>, p: int) -> Option<(SExpr, int)>
    decreases t.len() - p, 13int,
{
    if !in_range(t, p) {
        None
    } else {
        match parse_product(t, p) {
            Some((lhs, end)) => if advanced(t, p, end) {
                parse_sum_rest(t, end, lhs)
            } else {
                None
            },
            None => None,
        }
    }
}

pub closed spec fn parse_sum_rest(t: Seq<TokenView>, p: int, lhs: SExpr) -> Option<(SExpr, int)>
    decreases t.len() - p, 13int,
{
    if in_range(t, p) && sum_op(t, p) is Some {
        match parse_product(t, p + 1) {
            Some((rhs, end)) => if advanced(t, p, end) {
                parse_sum_rest(t, end, binary(lhs, sum_op(t, p).unwrap(), rhs))
            } else {
                None
            },
            None => Some((lhs, p)),
        }
    } else {
        Some((lhs, p))
    }
}

pub closed spec fn parse_product(t: Seq<TokenView>, p: int) -> Option<(SExpr, int)>
    decreases t.len() - p, 11int,
{
    if !in_range(t, p) {
        None
    } else {
        match parse_unary(t, p) {
            Some((lhs, end)) => if advanced(t, p, end) {
                parse_product_rest(t, end, lhs)
            } else {
                None
            },
            None => None,
        }
    }
}

pub closed spec fn parse_product_rest(t: Seq<TokenView>, p: int, lhs: SExpr) -> Option<
    (SExpr, int),
>
    decreases t.len() - p, 11int,
{
    if in_range(t, p) && product_op(t, p) is Some {
        match parse_unary(t, p + 1) {
            Some((rhs, end)) => if advanced(t, p, end) {
                parse_product_rest(t, end, binary(lhs, product_op(t, p).unwrap(), rhs))
            } else {
                None
            },
            None => Some((lhs, p)),
        }
    } else {
        Some((lhs, p))
    }
}

pub closed spec fn parse_unary(t: Seq<TokenView>, p: int) -> Option<(SExpr, int)>
    decreases t.len() - p, 9int,
{
    if !in_range(t, p) {
        None
    } else if keyword_at(t, p, "return"@) {
        match parse_expr(t, p + 1) {
            Some((e, end)) => Some((SExpr::Return(Box::new(e)), end)),
            None => parse_prefixed(t, p),
        }
    } else {
        parse_prefixed(t, p)
    }
}

pub closed spec fn parse_prefixed(t: Seq<TokenView>, p: int) -> Option<(SExpr, int)>
    decreases t.len() - p, 8int,
{
    let q = prefix_end(t, p);
    if !in_range(t, p) || !(p <= q <= t.len()) {
        None
    } else {
        match parse_postfix(t, q) {
            Some((e, end)) => Some((fold_unary(prefix_ops(t, p, q), e), end)),
            None => parse_postfix(t, p),
        }
    }
}

pub closed spec fn parse_postfix(t: Seq<TokenView>, p: int) -> Option<(SExpr, int)>
    decreases t.len() - p, 7int,
{
    if !in_range(t, p) {
        None
    } else {
        match parse_atom(t, p) {
            Some((e, end)) => if advanced(t, p, end) {
                parse_suffixes(t, end, e)
            } else {
                None
            },
            None => None,
        }
    }
}

pub closed spec fn parse_suffixes(t: Seq<TokenView>, p: int, e: SExpr) -> Option<(SExpr, int)>
    decreases t.len() - p, 7int,
{
    if !in_range(t, p) {
        None
    } else {
        match parse_args(t, p) {
            Some((args, end)) => if advanced(t, p, end) {
                parse_suffixes(t, end, SExpr::Call(Box::new(e), args))
            } else {
                None
            },
            None => {
                let index = if kind_at(t, p, TokenKind::OpenBracket) {
                    parse_expr(t, p + 1)
                } else {
                    None
                };
                if index is Some && kind_at(t, index.unwrap().1, TokenKind::CloseBracket) {
                    let end = index.unwrap().1 + 1;
                    if advanced(t, p, end) {
                        parse_suffixes(
                            t,
                            end,
                            SExpr::Index(Box::new(e), Box::new(index.unwrap().0)),
                        )
                    } else {
                        None
                    }
                } else if kind_at(t, p, TokenKind::Dot) && kind_at(t, p + 1, TokenKind::Ident) {
                    let name = t[p + 1].text;
                    match parse_args(t, p + 2) {
                        Some((args, end)) => if advanced(t, p, end) {
                            parse_suffixes(
                                t,
                                end,
                                SExpr::MethodCall(Box::new(e), name, args),
                            )
                        } else {
                            None
                        },
                        None => parse_suffixes(t, p + 2, SExpr::Field(Box::new(e), name)),
                    }
                } else {
                    Some((e, p))
                }
            },
        }
    }
}

/// `"(" expressions ")"`.
pub closed spec fn parse_args(t: Seq<TokenView>, p: int) -> Option<(Seq<SExpr>, int)>
    decreases t.len() - p, 6int,
{
    if in_range(t, p) && kind_at(t, p, TokenKind::OpenParen) {
        let (items, end) = parse_expr_list(t, p + 1);
        if kind_at(t, end, TokenKind::CloseParen) {
            Some((items, end + 1))
        } else {
            None
        }
    } else {
        None
    }
}

/// Expressions separated by commas, with a trailing comma allowed.
pub closed spec fn parse_expr_list(t: Seq<TokenView>, p: int) -> (Seq<SExpr>, int)
    decreases t.len() - p, 21int,
{
    if !in_range(t, p) {
        (seq![], p)
    } else {
        match parse_expr(t, p) {
            Some((first, end)) => if advanced(t, p, end) {
                parse_expr_list_rest(t, end, seq![first])
            } else {
                (seq![], p)
            },
            None => (seq![], p),
        }
    }
}

pub closed spec fn parse_expr_list_rest(t: Seq<TokenView>, p: int, items: Seq<SExpr>) -> (
    Seq<SExpr>,
    int,
)
    decreases t.len() - p, 21int,
{
    if in_range(t, p) && kind_at(t, p, TokenKind::Comma) {
        match parse_expr(t, p + 1) {
            Some((next, end)) => if advanced(t, p, end) {
                parse_expr_list_rest(t, end, items.push(next))
            } else {
                (items, p)
            },
            None => (items, p + 1),
        }
    } else {
        (items, p)
    }
}

/// `key ":" value`.
pub closed spec fn parse_entry(t: Seq<TokenView>, p: int) -> Option<(SEntry, int)>
    decreases t.len() - p, 21int,
{
    if !in_range(t, p) {
        None
    } else {
        match parse_expr(t, p) {
            Some((key, colon)) => if p <= colon && kind_at(t, colon, TokenKind::Colon) {
                match parse_expr(t, colon + 1) {
                    Some((value, end)) => Some((SEntry { key, value }, end)),
                    None => None,
                }
            } else {
                None
            },
            None => None,
        }
    }
}

/// Entries separated by commas, with a trailing comma allowed.
pub closed spec fn parse_entry_list(t: Seq<TokenView>, p: int) -> (Seq<SEntry>, int)
    decreases t.len() - p, 22int,
{
    if !in_range(t, p) {
        (seq![], p)
    } else {
        match parse_entry(t, p) {
            Some((first, end)) => if advanced(t, p, end) {
                parse_entry_list_rest(t, end, seq![first])
            } else {
                (seq![], p)
            },
            None => (seq![], p),
        }
    }
}

pub closed spec fn parse_entry_list_rest(t: Seq<TokenView>, p: int, entries: Seq<SEntry>) -> (
    Seq<SEntry>,
    int,
)
    decreases t.len() - p, 22int,
{
    if in_range(t, p) && kind_at(t, p, TokenKind::Comma) {
        match parse_entry(t, p + 1) {
            Some((next, end)) => if advanced(t, p, end) {
                parse_entry_list_rest(t, end, entries.push(next))
            } else {
                (entries, p)
            },
            None => (entries, p + 1),
        }
    } else {
        (entries, p)
    }
}

/// `ident "=>" expr` or `"(" ident ")" "=>" expr`.
pub closed spec fn parse_closure(t: Seq<TokenView>, p: int) -> Option<(SExpr, int)>
    decreases t.len() - p, 4int,
{
    let param = if kind_at(t, p, TokenKind::Ident) {
        Some((t[p].text, p + 1))
    } else if kind_at(t, p, TokenKind::OpenParen) && kind_at(t, p + 1, TokenKind::Ident)
        && kind_at(t, p + 2, TokenKind::CloseParen) {
        Some((t[p + 1].text, p + 3))
    } else {
        None
    };
    if !in_range(t, p) || param is None || !kind_at(t, param.unwrap().1, TokenKind::FatArrow) {
        None
    } else {
        match parse_expr(t, param.unwrap().1 + 1) {
            Some((body, end)) => Some((SExpr::Closure(param.unwrap().0, Box::new(body)), end)),
            None => None,
        }
    }
}

/// `"[" expressions "]"`.
pub closed spec fn parse_array(t: Seq<TokenView>, p: int) -> Option<(SExpr, int)>
    decreases t.len() - p, 4int,
{
    if in_range(t, p) && kind_at(t, p, TokenKind::OpenBracket) {
        let (items, end) = parse_expr_list(t, p + 1);
        if kind_at(t, end, TokenKind::CloseBracket) {
            Some((SExpr::Array(items), end + 1))
        } else {
            None
        }
    } else {
        None
    }
}

/// `"{" entries "}"`.
pub closed spec fn parse_map_literal(t: Seq<TokenView>, p: int) -> Option<(SExpr, int)>
    decreases t.len() - p, 4int,
{
    if in_range(t, p) && kind_at(t, p, TokenKind::OpenBrace) {
        let (entries, end) = parse_entry_list(t, p + 1);
        if kind_at(t, end, TokenKind::CloseBrace) {
            Some((SExpr::MapLiteral(entries), end + 1))
        } else {
            None
        }
    } else {
        None
    }
}

/// `"(" expr ")"`.
pub closed spec fn parse_paren(t: Seq<TokenView>, p: int) -> Option<(SExpr, int)>
    decreases t.len() - p, 4int,
{
    if in_range(t, p) && kind_at(t, p, TokenKind::OpenParen) {
        match parse_expr(t, p + 1) {
            Some((inner, end)) => if kind_at(t, end, TokenKind::CloseParen) {
                Some((SExpr::Paren(Box::new(inner)), end + 1))
            } else {
                None
            },
            None => None,
        }
    } else {
        None
    }
}

/// `path "!" "(" expressions ")"`.
pub closed spec fn parse_macro_call(t: Seq<TokenView>, p: int) -> Option<(SExpr, int)>
    decreases t.len() - p, 4int,
{
    match parse_path(t, p) {
        Some((segments, bang)) => if in_range(t, p) && p < bang && kind_at(
            t,
            bang,
            TokenKind::Bang,
        ) {
            match parse_args(t, bang + 1) {
                Some((args, end)) => Some((SExpr::MacroCall(segments, args), end)),
                None => None,
            }
        } else {
            None
        },
        None => None,
    }
}

/// A string, number or character token.
pub open spec fn parse_literal(t: Seq<TokenView>, p: int) -> Option<(SExpr, int)> {
    if kind_at(t, p, TokenKind::String) {
        Some(
            (
                SExpr::Str(t[p].text, Span { start: t[p].start as usize, end: t[p].end as usize }),
                p + 1,
            ),
        )
    } else if kind_at(t, p, TokenKind::Number) {
        Some((SExpr::Number(t[p].text), p + 1))
    } else if kind_at(t, p, TokenKind::Char) {
        Some((SExpr::Char(t[p].text), p + 1))
    } else {
        None
    }
}

pub closed spec fn parse_atom(t: Seq<TokenView>, p: int) -> Option<(SExpr, int)>
    decreases t.len() - p, 5int,
{
    if parse_closure(t, p) is Some {
        parse_closure(t, p)
    } else if parse_array(t, p) is Some {
        parse_array(t, p)
    } else if parse_map_literal(t, p) is Some {
        parse_map_literal(t, p)
    } else if parse_paren(t, p) is Some {
        parse_paren(t, p)
    } else if parse_macro_call(t, p) is Some {
        parse_macro_call(t, p)
    } else if parse_literal(t, p) is Some {
        parse_literal(t, p)
    } else {
        match parse_path(t, p) {
            Some((segments, end)) => Some((SExpr::Path(segments), end)),
            None => None,
        }
    }
}

pub proof fn unfold_parse_expr(t: Seq<TokenView>, p: int)
    ensures
        parse_expr(t, p) == ({
    if !in_range(t, p) {
        None
    } else {
        parse_or(t, p)
    }
        }),
{
}

pub proof fn unfold_parse_or(t: Seq<TokenView>, p: int)
    ensures
        parse_or(t, p) == ({
    if !in_range(t, p) {
        None
    } else {
        match parse_and(t, p) {
            Some((lhs, end)) => if advanced(t, p, end) {
                parse_or_rest(t, end, lhs)
            } else {
                None
            },
            None => None,
        }
    }
        }),
{
}

pub proof fn unfold_parse_or_rest(t: Seq<TokenView>, p: int, lhs: SExpr)
    ensures
        parse_or_rest(t, p, lhs) == ({
    if in_range(t, p) && or_op(t, p) is Some {
        match parse_and(t, p + 1) {
            Some((rhs, end)) => if advanced(t, p, end) {
                parse_or_rest(t, end, binary(lhs, or_op(t, p).unwrap(), rhs))
            } else {
                None
            },
            None => Some((lhs, p)),
        }
    } else {
        Some((lhs, p))
    }
        }),
{
}

pub proof fn unfold_parse_and(t: Seq<TokenView>, p: int)
    ensures
        parse_and(t, p) == ({
    if !in_range(t, p) {
        None
    } else {
        match parse_compare(t, p) {
            Some((lhs, end)) => if advanced(t, p, end) {
                parse_and_rest(t, end, lhs)
            } else {
                None
            },
            None => None,
        }
    }
        }),
{
}

pub proof fn unfold_parse_and_rest(t: Seq<TokenView>, p: int, lhs: SExpr)
    ensures
        parse_and_rest(t, p, lhs) == ({
    if in_range(t, p) && and_op(t, p) is Some {
        match parse_compare(t, p + 1) {
            Some((rhs, end)) => if advanced(t, p, end) {
                parse_and_rest(t, end, binary(lhs, and_op(t, p).unwrap(), rhs))
            } else {
                None
            },
            None => Some((lhs, p)),
        }
    } else {
        Some((lhs, p))
    }
        }),
{
}

pub proof fn unfold_parse_compare(t: Seq<TokenView>, p: int)
    ensures
        parse_compare(t, p) == ({
    if !in_range(t, p) {
        None
    } else {
        match parse_sum(t, p) {
            Some((lhs, end)) => if advanced(t, p, end) {
                parse_compare_rest(t, end, lhs)
            } else {
                None
            },
            None => None,
        }
    }
        }),
{
}

pub proof fn unfold_parse_compare_rest(t: Seq<TokenView>, p: int, lhs: SExpr)
    ensures
        parse_compare_rest(t, p, lhs) == ({
    if in_range(t, p) && compare_op(t, p) is Some {
        match parse_sum(t, p + 1) {
            Some((rhs, end)) => if advanced(t, p, end) {
                parse_compare_rest(t, end, binary(lhs, compare_op(t, p).unwrap(), rhs))
            } else {
                None
            },
            None => Some((lhs, p)),
        }
    } else {
        Some((lhs, p))
    }
        }),
{
}

pub proof fn unfold_parse_sum(t: Seq<TokenView>, p: int)
    ensures
        parse_sum(t, p) == ({
    if !in_range(t, p) {
        None
    } else {
        match parse_product(t, p) {
            Some((lhs, end)) => if advanced(t, p, end) {
                parse_sum_rest(t, end, lhs)
            } else {
                None
            },
            None => None,
        }
    }
        }),
{
}

pub proof fn unfold_parse_sum_rest(t: Seq<TokenView>, p: int, lhs: SExpr)
    ensures
        parse_sum_rest(t, p, lhs) == ({
    if in_range(t, p) && sum_op(t, p) is Some {
        match parse_product(t, p + 1) {
            Some((rhs, end)) => if advanced(t, p, end) {
                parse_sum_rest(t, end, binary(lhs, sum_op(t, p).unwrap(), rhs))
            } else {
                None
            },
            None => Some((lhs, p)),
        }
    } else {
        Some((lhs, p))
    }
        }),
{
}

pub proof fn unfold_parse_product(t: Seq<TokenView>, p: int)
    ensures
        parse_product(t, p) == ({
    if !in_range(t, p) {
        None
    } else {
        match parse_unary(t, p) {
            Some((lhs, end)) => if advanced(t, p, end) {
                parse_product_rest(t, end, lhs)
            } else {
                None
            },
            None => None,
        }
    }
        }),
{
}

pub proof fn unfold_parse_product_rest(t: Seq<TokenView>, p: int, lhs: SExpr)
    ensures
        parse_product_rest(t, p, lhs) == ({
    if in_range(t, p) && product_op(t, p) is Some {
        match parse_unary(t, p + 1) {
            Some((rhs, end)) => if advanced(t, p, end) {
                parse_product_rest(t, end, binary(lhs, product_op(t, p).unwrap(), rhs))
            } else {
                None
            },
            None => Some((lhs, p)),
        }
    } else {
        Some((lhs, p))
    }
        }),
{
}

pub proof fn unfold_parse_unary(t: Seq<TokenView>, p: int)
    ensures
        parse_unary(t, p) == ({
    if !in_range(t, p) {
        None
    } else if keyword_at(t, p, "return"@) {
        match parse_expr(t, p + 1) {
            Some((e, end)) => Some((SExpr::Return(Box::new(e)), end)),
            None => parse_prefixed(t, p),
        }
    } else {
        parse_prefixed(t, p)
    }
        }),
{
}

pub proof fn unfold_parse_prefixed(t: Seq<TokenView>, p: int)
    ensures
        parse_prefixed(t, p) == ({
    let q = prefix_end(t, p);
    if !in_range(t, p) || !(p <= q <= t.len()) {
        None
    } else {
        match parse_postfix(t, q) {
            Some((e, end)) => Some((fold_unary(prefix_ops(t, p, q), e), end)),
            None => parse_postfix(t, p),
        }
    }
        }),
{
}

pub proof fn unfold_parse_postfix(t: Seq<TokenView>, p: int)
    ensures
        parse_postfix(t, p) == ({
    if !in_range(t, p) {
        None
    } else {
        match parse_atom(t, p) {
            Some((e, end)) => if advanced(t, p, end) {
                parse_suffixes(t, end, e)
            } else {
                None
            },
            None => None,
        }
    }
        }),
{
}

pub proof fn unfold_parse_suffixes(t: Seq<TokenView>, p: int, e: SExpr)
    ensures
        parse_suffixes(t, p, e) == ({
    if !in_range(t, p) {
        None
    } else {
        match parse_args(t, p) {
            Some((args, end)) => if advanced(t, p, end) {
                parse_suffixes(t, end, SExpr::Call(Box::new(e), args))
            } else {
                None
            },
            None => {
                let index = if kind_at(t, p, TokenKind::OpenBracket) {
                    parse_expr(t, p + 1)
                } else {
                    None
                };
                if index is Some && kind_at(t, index.unwrap().1, TokenKind::CloseBracket) {
                    let end = index.unwrap().1 + 1;
                    if advanced(t, p, end) {
                        parse_suffixes(
                            t,
                            end,
                            SExpr::Index(Box::new(e), Box::new(index.unwrap().0)),
                        )
                    } else {
                        None
                    }
                } else if kind_at(t, p, TokenKind::Dot) && kind_at(t, p + 1, TokenKind::Ident) {
                    let name = t[p + 1].text;
                    match parse_args(t, p + 2) {
                        Some((args, end)) => if advanced(t, p, end) {
                            parse_suffixes(
                                t,
                                end,
                                SExpr::MethodCall(Box::new(e), name, args),
                            )
                        } else {
                            None
                        },
                        None => parse_suffixes(t, p + 2, SExpr::Field(Box::new(e), name)),
                    }
                } else {
                    Some((e, p))
                }
            },
        }
    }
        }),
{
}

pub proof fn unfold_parse_args(t: Seq<TokenView>, p: int)
    ensures
        parse_args(t, p) == ({
    if in_range(t, p) && kind_at(t, p, TokenKind::OpenParen) {
        let (items, end) = parse_expr_list(t, p + 1);
        if kind_at(t, end, TokenKind::CloseParen) {
            Some((items, end + 1))
        } else {
            None
        }
    } else {
        None
    }
        }),
{
}

pub proof fn unfold_parse_expr_list(t: Seq<TokenView>, p: int)
    ensures
        parse_expr_list(t, p) == ({
    if !in_range(t, p) {
        (seq![], p)
    } else {
        match parse_expr(t, p) {
            Some((first, end)) => if advanced(t, p, end) {
                parse_expr_list_rest(t, end, seq![first])
            } else {
                (seq![], p)
            },
            None => (seq![], p),
        }
    }
        }),
{
}

pub proof fn unfold_parse_expr_list_rest(t: Seq<TokenView>, p: int, items: Seq<SExpr>)
    ensures
        parse_expr_list_rest(t, p, items) == ({
    if in_range(t, p) && kind_at(t, p, TokenKind::Comma) {
        match parse_expr(t, p + 1) {
            Some((next, end)) => if advanced(t, p, end) {
                parse_expr_list_rest(t, end, items.push(next))
            } else {
                (items, p)
            },
            None => (items, p + 1),
        }
    } else {
        (items, p)
    }
        }),
{
}

pub proof fn unfold_parse_entry(t: Seq<TokenView>, p: int)
    ensures
        parse_entry(t, p) == ({
    if !in_range(t, p) {
        None
    } else {
        match parse_expr(t, p) {
            Some((key, colon)) => if p <= colon && kind_at(t, colon, TokenKind::Colon) {
                match parse_expr(t, colon + 1) {
                    Some((value, end)) => Some((SEntry { key, value }, end)),
                    None => None,
                }
            } else {
                None
            },
            None => None,
        }
    }
        }),
{
}

pub proof fn unfold_parse_entry_list(t: Seq<TokenView>, p: int)
    ensures
        parse_entry_list(t, p) == ({
    if !in_range(t, p) {
        (seq![], p)
    } else {
        match parse_entry(t, p) {
            Some((first, end)) => if advanced(t, p, end) {
                parse_entry_list_rest(t, end, seq![first])
            } else {
                (seq![], p)
            },
            None => (seq![], p),
        }
    }
        }),
{
}

pub proof fn unfold_parse_entry_list_rest(t: Seq<TokenView>, p: int, entries: Seq<SEntry>)
    ensures
        parse_entry_list_rest(t, p, entries) == ({
    if in_range(t, p) && kind_at(t, p, TokenKind::Comma) {
        match parse_entry(t, p + 1) {
            Some((next, end)) => if advanced(t, p, end) {
                parse_entry_list_rest(t, end, entries.push(next))
            } else {
                (entries, p)
            },
            None => (entries, p + 1),
        }
    } else {
        (entries, p)
    }
        }),
{
}

pub proof fn unfold_parse_closure(t: Seq<TokenView>, p: int)
    ensures
        parse_closure(t, p) == ({
    let param = if kind_at(t, p, TokenKind::Ident) {
        Some((t[p].text, p + 1))
    } else if kind_at(t, p, TokenKind::OpenParen) && kind_at(t, p + 1, TokenKind::Ident)
        && kind_at(t, p + 2, TokenKind::CloseParen) {
        Some((t[p + 1].text, p + 3))
    } else {
        None
    };
    if !in_range(t, p) || param is None || !kind_at(t, param.unwrap().1, TokenKind::FatArrow) {
        None
    } else {
        match parse_expr(t, param.unwrap().1 + 1) {
            Some((body, end)) => Some((SExpr::Closure(param.unwrap().0, Box::new(body)), end)),
            None => None,
        }
    }
        }),
{
}

pub proof fn unfold_parse_array(t: Seq<TokenView>, p: int)
    ensures
        parse_array(t, p) == ({
    if in_range(t, p) && kind_at(t, p, TokenKind::OpenBracket) {
        let (items, end) = parse_expr_list(t, p + 1);
        if kind_at(t, end, TokenKind::CloseBracket) {
            Some((SExpr::Array(items), end + 1))
        } else {
            None
        }
    } else {
        None
    }
        }),
{
}

pub proof fn unfold_parse_map_literal(t: Seq<TokenView>, p: int)
    ensures
        parse_map_literal(t, p) == ({
    if in_range(t, p) && kind_at(t, p, TokenKind::OpenBrace) {
        let (entries, end) = parse_entry_list(t, p + 1);
        if kind_at(t, end, TokenKind::CloseBrace) {
            Some((SExpr::MapLiteral(entries), end + 1))
        } else {
            None
        }
    } else {
        None
    }
        }),
{
}

pub proof fn unfold_parse_paren(t: Seq<TokenView>, p: int)
    ensures
        parse_paren(t, p) == ({
    if in_range(t, p) && kind_at(t, p, TokenKind::OpenParen) {
        match parse_expr(t, p + 1) {
            Some((inner, end)) => if kind_at(t, end, TokenKind::CloseParen) {
                Some((SExpr::Paren(Box::new(inner)), end + 1))
            } else {
                None
            },
            None => None,
        }
    } else {
        None
    }
        }),
{
}

pub proof fn unfold_parse_macro_call(t: Seq<TokenView>, p: int)
    ensures
        parse_macro_call(t, p) == ({
    match parse_path(t, p) {
        Some((segments, bang)) => if in_range(t, p) && p < bang && kind_at(
            t,
            bang,
            TokenKind::Bang,
        ) {
            match parse_args(t, bang + 1) {
                Some((args, end)) => Some((SExpr::MacroCall(segments, args), end)),
                None => None,
            }
        } else {
            None
        },
        None => None,
    }
        }),
{
}

pub proof fn unfold_parse_atom(t: Seq<TokenView>, p: int)
    ensures
        parse_atom(t, p) == ({
    if parse_closure(t, p) is Some {
        parse_closure(t, p)
    } else if parse_array(t, p) is Some {
        parse_array(t, p)
    } else if parse_map_literal(t, p) is Some {
        parse_map_literal(t, p)
    } else if parse_paren(t, p) is Some {
        parse_paren(t, p)
    } else if parse_macro_call(t, p) is Some {
        parse_macro_call(t, p)
    } else if parse_literal(t, p) is Some {
        parse_literal(t, p)
    } else {
        match parse_path(t, p) {
            Some((segments, end)) => Some((SExpr::Path(segments), end)),
            None => None,
        }
    }
        }),
{
}

} // verus!
