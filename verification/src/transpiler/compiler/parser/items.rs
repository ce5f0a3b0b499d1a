//! Recursive-descent parsing of items, blocks and statements, proved to follow `items_spec`.
use crate::transpiler::compiler::ast::{
    Block, Expr, Function, IndexAssignStmt, Item, LetStmt, Param, SItem, SParam, SStmt, StaticItem,
    Stmt, block_view, item_view, items_view, opt_type_view, params_view, sblock_wf, sitem_wf,
    sitems_wf, sstmt_wf, stmt_view, stmts_view, type_view,
};
use crate::transpiler::compiler::lexer::{Token, TokenKind};
use super::expr::expression_parser;

use super::items_spec::{
    parse_assign, parse_block, parse_expr_stmt, parse_function, parse_item, parse_items, parse_let,
    parse_param, parse_params, parse_params_rest, parse_return_type, parse_static, parse_stmt,
    parse_stmts, unfold_parse_items, unfold_parse_params_rest, unfold_parse_stmts,
};
use super::tokens::{is_keyword, is_kind, tokens_wf, tv};
use super::types::type_parser;
use vstd::prelude::*;

verus! {

pub open spec fn stmt_result(r: Option<(Stmt, usize)>) -> Option<(SStmt, int)> {
    match r {
        Some((s, end)) => Some((stmt_view(s), end as int)),
        None => None,
    }
}

pub open spec fn item_result(r: Option<(Item, usize)>) -> Option<(SItem, int)> {
    match r {
        Some((i, end)) => Some((item_view(i), end as int)),
        None => None,
    }
}

fn let_parser(t: &[Token], p: usize) -> (r: Option<(Stmt, usize)>)
    requires
        p <= t@.len(),
        tokens_wf(tv(t)),
    ensures
        r matches Some((s, _)) ==> sstmt_wf(stmt_view(s)),
        stmt_result(r) == parse_let(tv(t), p as int),
        r matches Some((_, end)) ==> p < end <= t@.len(),
{
    if !(p < t.len() && is_keyword(t, p, "let")) {
        return None;
    }
    let mutable = is_keyword(t, p + 1, "mut");
    let name_at = if mutable {
        p + 2
    } else {
        p + 1
    };
    if !is_kind(t, name_at, TokenKind::Ident) {
        return None;
    }
    let name = t[name_at].text.clone();
    let typed = if is_kind(t, name_at + 1, TokenKind::Colon) {
        type_parser(t, name_at + 2)
    } else {
        None
    };
    let (ty, eq_at) = match typed {
        Some((ty, end)) => (Some(ty), end),
        None => (None, name_at + 1),
    };
    if !is_kind(t, eq_at, TokenKind::Eq) {
        return None;
    }
    match expression_parser(t, eq_at + 1) {
        Some((value, semi)) => {
            if is_kind(t, semi, TokenKind::Semi) {
                Some((Stmt::Let(LetStmt { mutable, name, ty, value }), semi + 1))
            } else {
                None
            }
        },
        None => None,
    }
}

fn assign_parser(t: &[Token], p: usize) -> (r: Option<(Stmt, usize)>)
    requires
        p <= t@.len(),
        tokens_wf(tv(t)),
    ensures
        r matches Some((s, _)) ==> sstmt_wf(stmt_view(s)),
        stmt_result(r) == parse_assign(tv(t), p as int),
        r matches Some((_, end)) ==> p < end <= t@.len(),
{
    match expression_parser(t, p) {
        Some((lhs, eq_at)) => {
            if !(eq_at < t.len() && is_kind(t, eq_at, TokenKind::Eq)) {
                return None;
            }
            match expression_parser(t, eq_at + 1) {
                Some((value, semi)) => {
                    if !is_kind(t, semi, TokenKind::Semi) {
                        return None;
                    }
                    match lhs {
                        Expr::Index { receiver, index } => {
                            let assign = IndexAssignStmt { target: *receiver, index: *index, value };
                            Some((Stmt::IndexAssign(assign), semi + 1))
                        },
                        _ => None,
                    }
                },
                None => None,
            }
        },
        None => None,
    }
}

fn expr_stmt_parser(t: &[Token], p: usize) -> (r: Option<(Stmt, usize)>)
    requires
        p <= t@.len(),
        tokens_wf(tv(t)),
    ensures
        r matches Some((s, _)) ==> sstmt_wf(stmt_view(s)),
        stmt_result(r) == parse_expr_stmt(tv(t), p as int),
        r matches Some((_, end)) ==> p < end <= t@.len(),
{
    match expression_parser(t, p) {
        Some((e, semi)) => {
            if semi < t.len() && is_kind(t, semi, TokenKind::Semi) {
                Some((Stmt::Expr(e), semi + 1))
            } else {
                None
            }
        },
        None => None,
    }
}

fn stmt_parser(t: &[Token], p: usize) -> (r: Option<(Stmt, usize)>)
    requires
        p <= t@.len(),
        tokens_wf(tv(t)),
    ensures
        r matches Some((s, _)) ==> sstmt_wf(stmt_view(s)),
        stmt_result(r) == parse_stmt(tv(t), p as int),
        r matches Some((_, end)) ==> p < end <= t@.len(),
{
    if let Some(found) = let_parser(t, p) {
        return Some(found);
    }
    if let Some(found) = assign_parser(t, p) {
        return Some(found);
    }
    expr_stmt_parser(t, p)
}

fn block_parser(t: &[Token], p: usize) -> (r: Option<(Block, usize)>)
    requires
        p <= t@.len(),
        tokens_wf(tv(t)),
    ensures
        match r {
            Some((b, end)) => parse_block(tv(t), p as int) == Some((block_view(b), end as int)),
            None => parse_block(tv(t), p as int) is None,
        },
        r matches Some((b, _)) ==> sblock_wf(block_view(b)),
        r matches Some((_, end)) ==> p < end <= t@.len(),
{
    if !(p < t.len() && is_kind(t, p, TokenKind::OpenBrace)) {
        return None;
    }
    let mut statements: Vec<Stmt> = Vec::new();
    let mut q = p + 1;
    assert(stmts_view(statements@) =~= Seq::<SStmt>::empty());
    loop
        invariant
            p < q <= t@.len(),
            tokens_wf(tv(t)),
            forall|i: int| 0 <= i < stmts_view(statements@).len() ==> sstmt_wf(#[trigger] stmts_view(statements@)[i]),
            parse_stmts(tv(t), p + 1, seq![]) == parse_stmts(
                tv(t),
                q as int,
                stmts_view(statements@),
            ),
        ensures
            p < q <= t@.len(),
            forall|i: int| 0 <= i < stmts_view(statements@).len() ==> sstmt_wf(#[trigger] stmts_view(statements@)[i]),
            parse_stmts(tv(t), p + 1, seq![]) == (stmts_view(statements@), q as int),
        decreases t@.len() - q,
    {
        proof {
            unfold_parse_stmts(tv(t), q as int, stmts_view(statements@));
        }
        match stmt_parser(t, q) {
            Some((s, end)) => {
                let ghost before = statements@;
                statements.push(s);
                assert(statements@.drop_last() == before);
                q = end;
            },
            None => break,
        }
    }
    match expression_parser(t, q) {
        Some((tail, close)) => {
            if is_kind(t, close, TokenKind::CloseBrace) {
                Some((Block { statements, tail: Some(tail) }, close + 1))
            } else {
                None
            }
        },
        None => {
            if is_kind(t, q, TokenKind::CloseBrace) {
                Some((Block { statements, tail: None }, q + 1))
            } else {
                None
            }
        },
    }
}

fn param_parser(t: &[Token], p: usize) -> (r: Option<(Param, usize)>)
    requires
        p <= t@.len(),
        tokens_wf(tv(t)),
    ensures
        match r {
            Some((x, end)) => parse_param(tv(t), p as int) == Some(
                (SParam { name: x.name@, ty: type_view(x.ty) }, end as int),
            ),
            None => parse_param(tv(t), p as int) is None,
        },
        r matches Some((_, end)) ==> p < end <= t@.len(),
{
    if p < t.len() && is_kind(t, p, TokenKind::Ident) && is_kind(t, p + 1, TokenKind::Colon) {
        match type_parser(t, p + 2) {
            Some((ty, end)) => Some((Param { name: t[p].text.clone(), ty }, end)),
            None => None,
        }
    } else {
        None
    }
}

fn params_parser(t: &[Token], p: usize) -> (r: (Vec<Param>, usize))
    requires
        p <= t@.len(),
        tokens_wf(tv(t)),
    ensures
        (params_view(r.0@), r.1 as int) == parse_params(tv(t), p as int),
        p <= r.1 <= t@.len(),
{
    let mut params: Vec<Param> = Vec::new();
    assert(params_view(params@) =~= Seq::<SParam>::empty());
    let (first, end) = match param_parser(t, p) {
        Some(found) => found,
        None => return (params, p),
    };
    let ghost first_view = SParam { name: first.name@, ty: type_view(first.ty) };
    params.push(first);
    assert(params@.drop_last() =~= Seq::<Param>::empty());
    assert(params_view(params@) =~= seq![first_view]);
    let mut q = end;
    loop
        invariant
            p < q <= t@.len(),
            tokens_wf(tv(t)),
            parse_params(tv(t), p as int) == parse_params_rest(
                tv(t),
                q as int,
                params_view(params@),
            ),
        decreases t@.len() - q,
    {
        proof {
            unfold_parse_params_rest(tv(t), q as int, params_view(params@));
        }
        if !(q < t.len() && is_kind(t, q, TokenKind::Comma)) {
            return (params, q);
        }
        match param_parser(t, q + 1) {
            Some((next, after)) => {
                let ghost before = params@;
                params.push(next);
                assert(params@.drop_last() == before);
                q = after;
            },
            None => return (params, q),
        }
    }
}

fn function_parser(t: &[Token], p: usize) -> (r: Option<(Item, usize)>)
    requires
        p <= t@.len(),
        tokens_wf(tv(t)),
    ensures
        r matches Some((i, _)) ==> sitem_wf(item_view(i)),
        item_result(r) == parse_function(tv(t), p as int),
        r matches Some((_, end)) ==> p < end <= t@.len(),
{
    if !(p < t.len() && is_keyword(t, p, "fn") && is_kind(t, p + 1, TokenKind::Ident) && is_kind(
        t,
        p + 2,
        TokenKind::OpenParen,
    )) {
        return None;
    }
    let name = t[p + 1].text.clone();
    let (params, close) = params_parser(t, p + 3);
    if !is_kind(t, close, TokenKind::CloseParen) {
        return None;
    }
    let (return_type, body_at) = if is_kind(t, close + 1, TokenKind::Colon) || is_kind(
        t,
        close + 1,
        TokenKind::ThinArrow,
    ) {
        match type_parser(t, close + 2) {
            Some((ty, end)) => (Some(ty), end),
            None => (None, close + 1),
        }
    } else {
        (None, close + 1)
    };
    assert(parse_return_type(tv(t), close as int) == (opt_type_view(return_type), body_at as int));
    match block_parser(t, body_at) {
        Some((body, end)) => Some((Item::Function(Function { name, params, return_type, body }), end)),
        None => None,
    }
}

fn static_parser(t: &[Token], p: usize) -> (r: Option<(Item, usize)>)
    requires
        p <= t@.len(),
        tokens_wf(tv(t)),
    ensures
        r matches Some((i, _)) ==> sitem_wf(item_view(i)),
        item_result(r) == parse_static(tv(t), p as int),
        r matches Some((_, end)) ==> p < end <= t@.len(),
{
    if !(p < t.len() && is_keyword(t, p, "static") && is_kind(t, p + 1, TokenKind::Ident)
        && is_kind(t, p + 2, TokenKind::Colon)) {
        return None;
    }
    let name = t[p + 1].text.clone();
    match type_parser(t, p + 3) {
        Some((ty, eq_at)) => {
            if !(eq_at < t.len() && is_kind(t, eq_at, TokenKind::Eq)) {
                return None;
            }
            match expression_parser(t, eq_at + 1) {
                Some((value, semi)) => {
                    if is_kind(t, semi, TokenKind::Semi) {
                        Some((Item::Static(StaticItem { name, ty, value }), semi + 1))
                    } else {
                        None
                    }
                },
                None => None,
            }
        },
        None => None,
    }
}

fn item_parser(t: &[Token], p: usize) -> (r: Option<(Item, usize)>)
    requires
        p <= t@.len(),
        tokens_wf(tv(t)),
    ensures
        r matches Some((i, _)) ==> sitem_wf(item_view(i)),
        item_result(r) == parse_item(tv(t), p as int),
        r matches Some((_, end)) ==> p < end <= t@.len(),
{
    if let Some(found) = function_parser(t, p) {
        return Some(found);
    }
    static_parser(t, p)
}

/// Parses as many items as follow each other from the first token; returns them with the
/// position of the first token that starts no item.
pub fn items_parser(t: &[Token]) -> (r: (Vec<Item>, usize))
    requires
        tokens_wf(tv(t)),
    ensures
        sitems_wf(items_view(r.0@)),
        parse_items(tv(t), 0, seq![]) == (items_view(r.0@), r.1 as int),
        r.1 <= t@.len(),
{
    let mut items: Vec<Item> = Vec::new();
    let mut q: usize = 0;
    assert(items_view(items@) =~= Seq::<SItem>::empty());
    loop
        invariant
            q <= t@.len(),
            tokens_wf(tv(t)),
            sitems_wf(items_view(items@)),
            parse_items(tv(t), 0, seq![]) == parse_items(tv(t), q as int, items_view(items@)),
        ensures
            q <= t@.len(),
            sitems_wf(items_view(items@)),
            parse_items(tv(t), 0, seq![]) == (items_view(items@), q as int),
        decreases t@.len() - q,
    {
        proof {
            unfold_parse_items(tv(t), q as int, items_view(items@));
        }
        match item_parser(t, q) {
            Some((item, end)) => {
                let ghost before = items@;
                items.push(item);
                assert(items@.drop_last() == before);
                q = end;
            },
            None => break,
        }
    }
    (items, q)
}

} // verus!
