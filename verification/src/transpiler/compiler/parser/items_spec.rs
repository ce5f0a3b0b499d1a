//! The grammar of items, blocks and statements:
//! `module := item*`, `item := function | static`,
//! `function := "fn" ident "(" (param ("," param)*)? ")" ((":" | "->") type)? block`,
//! `static := "static" ident ":" type "=" expr ";"`, `block := "{" stmt* expr? "}"`,
//! `stmt := let | expr "=" expr ";" (an index target) | expr ";"`.
use crate::transpiler::compiler::ast::{SBlock, SExpr, SItem, SParam, SStmt, SType};
use crate::transpiler::compiler::lexer::{TokenKind, TokenView};
use super::expr_spec::{advanced, parse_expr};
use super::tokens::{keyword_at, kind_at};
use super::types::parse_type;
use vstd::prelude::*;

verus! {

/// `"let" "mut"? ident (":" type)? "=" expr ";"`.
pub open spec fn parse_let(t: Seq<TokenView>, p: int) -> Option<(SStmt, int)> {
    let mutable = keyword_at(t, p + 1, "mut"@);
    let name_at = if mutable {
        p + 2
    } else {
        p + 1
    };
    let typed = if kind_at(t, name_at + 1, TokenKind::Colon) {
        parse_type(t, name_at + 2)
    } else {
        None
    };
    let ty: Option<SType> = if typed is Some {
        Some(typed.unwrap().0)
    } else {
        None
    };
    let eq_at = if typed is Some {
        typed.unwrap().1
    } else {
        name_at + 1
    };
    if !(0 <= p && keyword_at(t, p, "let"@) && kind_at(t, name_at, TokenKind::Ident) && kind_at(
        t,
        eq_at,
        TokenKind::Eq,
    )) {
        None
    } else {
        match parse_expr(t, eq_at + 1) {
            Some((value, semi)) => if kind_at(t, semi, TokenKind::Semi) {
                Some((SStmt::Let(mutable, t[name_at].text, ty, value), semi + 1))
            } else {
                None
            },
            None => None,
        }
    }
}

/// `target[index] "=" expr ";"`.
pub open spec fn parse_assign(t: Seq<TokenView>, p: int) -> Option<(SStmt, int)> {
    match parse_expr(t, p) {
        Some((lhs, eq_at)) => if 0 <= eq_at && kind_at(t, eq_at, TokenKind::Eq) {
            match parse_expr(t, eq_at + 1) {
                Some((value, semi)) => if kind_at(t, semi, TokenKind::Semi) {
                    match lhs {
                        SExpr::Index(target, index) => Some(
                            (SStmt::IndexAssign(*target, *index, value), semi + 1),
                        ),
                        _ => None,
                    }
                } else {
                    None
                },
                None => None,
            }
        } else {
            None
        },
        None => None,
    }
}

/// `expr ";"`.
pub open spec fn parse_expr_stmt(t: Seq<TokenView>, p: int) -> Option<(SStmt, int)> {
    match parse_expr(t, p) {
        Some((e, semi)) => if kind_at(t, semi, TokenKind::Semi) {
            Some((SStmt::Expr(e), semi + 1))
        } else {
            None
        },
        None => None,
    }
}

pub open spec fn parse_stmt(t: Seq<TokenView>, p: int) -> Option<(SStmt, int)> {
    if parse_let(t, p) is Some {
        parse_let(t, p)
    } else if parse_assign(t, p) is Some {
        parse_assign(t, p)
    } else {
        parse_expr_stmt(t, p)
    }
}

/// As many statements as parse, one after the other.
pub closed spec fn parse_stmts(t: Seq<TokenView>, p: int, stmts: Seq<SStmt>) -> (
    Seq<SStmt>,
    int,
)
    decreases t.len() - p,
{
    match parse_stmt(t, p) {
        Some((s, end)) => if 0 <= p && advanced(t, p, end) {
            parse_stmts(t, end, stmts.push(s))
        } else {
            (stmts, p)
        },
        None => (stmts, p),
    }
}

pub proof fn unfold_parse_stmts(t: Seq<TokenView>, p: int, stmts: Seq<SStmt>)
    ensures
        parse_stmts(t, p, stmts) == (match parse_stmt(t, p) {
            Some((s, end)) => if 0 <= p && advanced(t, p, end) {
                parse_stmts(t, end, stmts.push(s))
            } else {
                (stmts, p)
            },
            None => (stmts, p),
        }),
{
}

/// `"{" stmt* expr? "}"`.
pub open spec fn parse_block(t: Seq<TokenView>, p: int) -> Option<(SBlock, int)> {
    if !(0 <= p && kind_at(t, p, TokenKind::OpenBrace)) {
        None
    } else {
        let (stmts, q) = parse_stmts(t, p + 1, seq![]);
        match parse_expr(t, q) {
            Some((tail, close)) => if kind_at(t, close, TokenKind::CloseBrace) {
                Some((SBlock { statements: stmts, tail: Some(tail) }, close + 1))
            } else {
                None
            },
            None => if kind_at(t, q, TokenKind::CloseBrace) {
                Some((SBlock { statements: stmts, tail: None }, q + 1))
            } else {
                None
            },
        }
    }
}

/// `ident ":" type`.
pub open spec fn parse_param(t: Seq<TokenView>, p: int) -> Option<(SParam, int)> {
    if 0 <= p && kind_at(t, p, TokenKind::Ident) && kind_at(t, p + 1, TokenKind::Colon) {
        match parse_type(t, p + 2) {
            Some((ty, end)) => Some((SParam { name: t[p].text, ty }, end)),
            None => None,
        }
    } else {
        None
    }
}

/// Parameters separated by commas, without a trailing comma.
pub closed spec fn parse_params_rest(t: Seq<TokenView>, p: int, params: Seq<SParam>) -> (
    Seq<SParam>,
    int,
)
    decreases t.len() - p,
{
    if 0 <= p && kind_at(t, p, TokenKind::Comma) {
        match parse_param(t, p + 1) {
            Some((next, end)) => if advanced(t, p, end) {
                parse_params_rest(t, end, params.push(next))
            } else {
                (params, p)
            },
            None => (params, p),
        }
    } else {
        (params, p)
    }
}

pub proof fn unfold_parse_params_rest(t: Seq<TokenView>, p: int, params: Seq<SParam>)
    ensures
        parse_params_rest(t, p, params) == (if 0 <= p && kind_at(t, p, TokenKind::Comma) {
            match parse_param(t, p + 1) {
                Some((next, end)) => if advanced(t, p, end) {
                    parse_params_rest(t, end, params.push(next))
                } else {
                    (params, p)
                },
                None => (params, p),
            }
        } else {
            (params, p)
        }),
{
}

pub open spec fn parse_params(t: Seq<TokenView>, p: int) -> (Seq<SParam>, int) {
    match parse_param(t, p) {
        Some((first, end)) => parse_params_rest(t, end, seq![first]),
        None => (seq![], p),
    }
}

/// The optional return type after a parameter list closed at `close`.
pub open spec fn parse_return_type(t: Seq<TokenView>, close: int) -> (Option<SType>, int) {
    if kind_at(t, close + 1, TokenKind::Colon) || kind_at(t, close + 1, TokenKind::ThinArrow) {
        match parse_type(t, close + 2) {
            Some((ty, end)) => (Some(ty), end),
            None => (None, close + 1),
        }
    } else {
        (None, close + 1)
    }
}

pub open spec fn parse_function(t: Seq<TokenView>, p: int) -> Option<(SItem, int)> {
    let (params, close) = parse_params(t, p + 3);
    let (ret, body_at) = parse_return_type(t, close);
    if !(0 <= p && keyword_at(t, p, "fn"@) && kind_at(t, p + 1, TokenKind::Ident) && kind_at(
        t,
        p + 2,
        TokenKind::OpenParen,
    ) && kind_at(t, close, TokenKind::CloseParen)) {
        None
    } else {
        match parse_block(t, body_at) {
            Some((body, end)) => Some((SItem::Function(t[p + 1].text, params, ret, body), end)),
            None => None,
        }
    }
}

pub open spec fn parse_static(t: Seq<TokenView>, p: int) -> Option<(SItem, int)> {
    if !(0 <= p && keyword_at(t, p, "static"@) && kind_at(t, p + 1, TokenKind::Ident) && kind_at(
        t,
        p + 2,
        TokenKind::Colon,
    )) {
        None
    } else {
        match parse_type(t, p + 3) {
            Some((ty, eq_at)) => if kind_at(t, eq_at, TokenKind::Eq) {
                match parse_expr(t, eq_at + 1) {
                    Some((value, semi)) => if kind_at(t, semi, TokenKind::Semi) {
                        Some((SItem::Static(t[p + 1].text, ty, value), semi + 1))
                    } else {
                        None
                    },
                    None => None,
                }
            } else {
                None
            },
            None => None,
        }
    }
}

pub open spec fn parse_item(t: Seq<TokenView>, p: int) -> Option<(SItem, int)> {
    if parse_function(t, p) is Some {
        parse_function(t, p)
    } else {
        parse_static(t, p)
    }
}

/// As many items as parse, one after the other.
pub closed spec fn parse_items(t: Seq<TokenView>, p: int, items: Seq<SItem>) -> (
    Seq<SItem>,
    int,
)
    decreases t.len() - p,
{
    match parse_item(t, p) {
        Some((item, end)) => if 0 <= p && advanced(t, p, end) {
            parse_items(t, end, items.push(item))
        } else {
            (items, p)
        },
        None => (items, p),
    }
}

pub proof fn unfold_parse_items(t: Seq<TokenView>, p: int, items: Seq<SItem>)
    ensures
        parse_items(t, p, items) == (match parse_item(t, p) {
            Some((item, end)) => if 0 <= p && advanced(t, p, end) {
                parse_items(t, end, items.push(item))
            } else {
                (items, p)
            },
            None => (items, p),
        }),
{
}

/// The items of a whole token sequence, or the position where no further item starts.
pub open spec fn parse_module(t: Seq<TokenView>) -> Result<Seq<SItem>, int> {
    let (items, end) = parse_items(t, 0, seq![]);
    if end == t.len() {
        Ok(items)
    } else {
        Err(end)
    }
}

/// One whole expression, or the position where parsing stopped.
pub open spec fn parse_whole_expression(t: Seq<TokenView>) -> Result<SExpr, int> {
    match parse_expr(t, 0) {
        Some((e, end)) => if end == t.len() {
            Ok(e)
        } else {
            Err(end)
        },
        None => Err(0),
    }
}

} // verus!
