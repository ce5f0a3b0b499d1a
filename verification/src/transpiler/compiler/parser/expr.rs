//! Recursive-descent parsing of expressions, proved to follow `expr_spec`.
use crate::transpiler::compiler::ast::{
    BinaryOp, Expr, MapEntry, SEntry, SExpr, StringLiteral, UnaryOp, entries_view, expr_view,
    exprs_view, sexpr_wf, sexprs_wf,
};
use crate::transpiler::compiler::lexer::{Token, TokenKind};
use super::expr_spec::{
    in_range, expr_result, product_op, sum_op, compare_op, and_op, or_op, prefix_op, prefix_end,
    prefix_ops, fold_unary, parse_expr, parse_or, parse_or_rest, parse_and, parse_and_rest,
    parse_compare, parse_compare_rest, parse_sum, parse_sum_rest, parse_product, parse_product_rest,
    parse_unary, parse_prefixed, parse_postfix, parse_suffixes, parse_args, parse_expr_list,
    parse_expr_list_rest, parse_entry, parse_entry_list, parse_entry_list_rest, parse_closure,
    parse_array, parse_map_literal, parse_paren, parse_macro_call, parse_literal, parse_atom,
    unfold_parse_expr, unfold_parse_or, unfold_parse_or_rest, unfold_parse_and,
    unfold_parse_and_rest, unfold_parse_compare, unfold_parse_compare_rest, unfold_parse_sum,
    unfold_parse_sum_rest, unfold_parse_product, unfold_parse_product_rest, unfold_parse_unary,
    unfold_parse_prefixed, unfold_parse_postfix, unfold_parse_suffixes, unfold_parse_args,
    unfold_parse_expr_list, unfold_parse_expr_list_rest, unfold_parse_entry,
    unfold_parse_entry_list, unfold_parse_entry_list_rest, unfold_parse_closure, unfold_parse_array,
    unfold_parse_map_literal, unfold_parse_paren, unfold_parse_macro_call, unfold_parse_atom,
};
use super::path::path_parser;
use super::tokens::{is_keyword, is_kind, is_text, kind_at, tokens_wf, tv};
use vstd::prelude::*;

verus! {

fn expr_parser_at(t: &[Token], p: usize) -> (r: Option<(Expr, usize)>)
    requires
        p <= t@.len(),
        tokens_wf(tv(t)),
    ensures
        r matches Some((e, _)) ==> sexpr_wf(expr_view(e)),
        expr_result(r) == parse_expr(tv(t), p as int),
        r matches Some((_, end)) ==> p < end <= t@.len(),
    decreases t@.len() - p, 20int,
{
    proof {
        unfold_parse_expr(tv(t), p as int);
    }
    or_parser(t, p)
}

fn or_operator(t: &[Token], p: usize) -> (op: Option<BinaryOp>)
    ensures
        op == or_op(tv(t), p as int),
{
    if is_text(t, p, "||") {
        Some(BinaryOp::Or)
    } else {
        None
    }
}

fn or_parser(t: &[Token], p: usize) -> (r: Option<(Expr, usize)>)
    requires
        p <= t@.len(),
        tokens_wf(tv(t)),
    ensures
        r matches Some((e, _)) ==> sexpr_wf(expr_view(e)),
        expr_result(r) == parse_or(tv(t), p as int),
        r matches Some((_, end)) ==> p < end <= t@.len(),
    decreases t@.len() - p, 19int,
{
    proof {
        unfold_parse_or(tv(t), p as int);
    }
    match and_parser(t, p) {
        Some((first, end)) => {
            if end <= p {
                return None;
            }
            let mut lhs = first;
            let mut q = end;
            loop
                invariant
                    p < q <= t@.len(),
                    tokens_wf(tv(t)),
                    sexpr_wf(expr_view(lhs)),
                    parse_or(tv(t), p as int) == parse_or_rest(tv(t), q as int, expr_view(lhs)),
                decreases t@.len() - q,
            {
                proof {
                    unfold_parse_or_rest(tv(t), q as int, expr_view(lhs));
                }
                let op = if q < t.len() {
                    or_operator(t, q)
                } else {
                    None
                };
                match op {
                    Some(op) => match and_parser(t, q + 1) {
                        Some((rhs, next)) => {
                            if next <= q {
                                return None;
                            }
                            lhs = Expr::Binary { lhs: Box::new(lhs), op, rhs: Box::new(rhs) };
                            q = next;
                        },
                        None => return Some((lhs, q)),
                    },
                    None => return Some((lhs, q)),
                }
            }
        },
        None => None,
    }
}

fn and_operator(t: &[Token], p: usize) -> (op: Option<BinaryOp>)
    ensures
        op == and_op(tv(t), p as int),
{
    if is_text(t, p, "&&") {
        Some(BinaryOp::And)
    } else {
        None
    }
}

fn and_parser(t: &[Token], p: usize) -> (r: Option<(Expr, usize)>)
    requires
        p <= t@.len(),
        tokens_wf(tv(t)),
    ensures
        r matches Some((e, _)) ==> sexpr_wf(expr_view(e)),
        expr_result(r) == parse_and(tv(t), p as int),
        r matches Some((_, end)) ==> p < end <= t@.len(),
    decreases t@.len() - p, 17int,
{
    proof {
        unfold_parse_and(tv(t), p as int);
    }
    match compare_parser(t, p) {
        Some((first, end)) => {
            if end <= p {
                return None;
            }
            let mut lhs = first;
            let mut q = end;
            loop
                invariant
                    p < q <= t@.len(),
                    tokens_wf(tv(t)),
                    sexpr_wf(expr_view(lhs)),
                    parse_and(tv(t), p as int) == parse_and_rest(tv(t), q as int, expr_view(lhs)),
                decreases t@.len() - q,
            {
                proof {
                    unfold_parse_and_rest(tv(t), q as int, expr_view(lhs));
                }
                let op = if q < t.len() {
                    and_operator(t, q)
                } else {
                    None
                };
                match op {
                    Some(op) => match compare_parser(t, q + 1) {
                        Some((rhs, next)) => {
                            if next <= q {
                                return None;
                            }
                            lhs = Expr::Binary { lhs: Box::new(lhs), op, rhs: Box::new(rhs) };
                            q = next;
                        },
                        None => return Some((lhs, q)),
                    },
                    None => return Some((lhs, q)),
                }
            }
        },
        None => None,
    }
}

fn compare_operator(t: &[Token], p: usize) -> (op: Option<BinaryOp>)
    ensures
        op == compare_op(tv(t), p as int),
{
    if is_text(t, p, ">=") {
        Some(BinaryOp::Ge)
    } else if is_text(t, p, "<=") {
        Some(BinaryOp::Le)
    } else if is_text(t, p, "==") {
        Some(BinaryOp::Eq)
    } else if is_text(t, p, "!=") {
        Some(BinaryOp::NotEq)
    } else if is_text(t, p, ">") {
        Some(BinaryOp::Gt)
    } else if is_text(t, p, "<") {
        Some(BinaryOp::Lt)
    } else {
        None
    }
}

fn compare_parser(t: &[Token], p: usize) -> (r: Option<(Expr, usize)>)
    requires
        p <= t@.len(),
        tokens_wf(tv(t)),
    ensures
        r matches Some((e, _)) ==> sexpr_wf(expr_view(e)),
        expr_result(r) == parse_compare(tv(t), p as int),
        r matches Some((_, end)) ==> p < end <= t@.len(),
    decreases t@.len() - p, 15int,
{
    proof {
        unfold_parse_compare(tv(t), p as int);
    }
    match sum_parser(t, p) {
        Some((first, end)) => {
            if end <= p {
                return None;
            }
            let mut lhs = first;
            let mut q = end;
            loop
                invariant
                    p < q <= t@.len(),
                    tokens_wf(tv(t)),
                    sexpr_wf(expr_view(lhs)),
                    parse_compare(tv(t), p as int) == parse_compare_rest(tv(t), q as int, expr_view(lhs)),
                decreases t@.len() - q,
            {
                proof {
                    unfold_parse_compare_rest(tv(t), q as int, expr_view(lhs));
                }
                let op = if q < t.len() {
                    compare_operator(t, q)
                } else {
                    None
                };
                match op {
                    Some(op) => match sum_parser(t, q + 1) {
                        Some((rhs, next)) => {
                            if next <= q {
                                return None;
                            }
                            lhs = Expr::Binary { lhs: Box::new(lhs), op, rhs: Box::new(rhs) };
                            q = next;
                        },
                        None => return Some((lhs, q)),
                    },
                    None => return Some((lhs, q)),
                }
            }
        },
        None => None,
    }
}

fn sum_operator(t: &[Token], p: usize) -> (op: Option<BinaryOp>)
    ensures
        op == sum_op(tv(t), p as int),
{
    if is_text(t, p, "+") {
        Some(BinaryOp::Add)
    } else if is_text(t, p, "-") {
        Some(BinaryOp::Sub)
    } else {
        None
    }
}

fn sum_parser(t: &[Token], p: usize) -> (r: Option<(Expr, usize)>)
    requires
        p <= t@.len(),
        tokens_wf(tv(t)),
    ensures
        r matches Some((e, _)) ==> sexpr_wf(expr_view(e)),
        expr_result(r) == parse_sum(tv(t), p as int),
        r matches Some((_, end)) ==> p < end <= t@.len(),
    decreases t@.len() - p, 13int,
{
    proof {
        unfold_parse_sum(tv(t), p as int);
    }
    match product_parser(t, p) {
        Some((first, end)) => {
            if end <= p {
                return None;
            }
            let mut lhs = first;
            let mut q = end;
            loop
                invariant
                    p < q <= t@.len(),
                    tokens_wf(tv(t)),
                    sexpr_wf(expr_view(lhs)),
                    parse_sum(tv(t), p as int) == parse_sum_rest(tv(t), q as int, expr_view(lhs)),
                decreases t@.len() - q,
            {
                proof {
                    unfold_parse_sum_rest(tv(t), q as int, expr_view(lhs));
                }
                let op = if q < t.len() {
                    sum_operator(t, q)
                } else {
                    None
                };
                match op {
                    Some(op) => match product_parser(t, q + 1) {
                        Some((rhs, next)) => {
                            if next <= q {
                                return None;
                            }
                            lhs = Expr::Binary { lhs: Box::new(lhs), op, rhs: Box::new(rhs) };
                            q = next;
                        },
                        None => return Some((lhs, q)),
                    },
                    None => return Some((lhs, q)),
                }
            }
        },
        None => None,
    }
}

fn product_operator(t: &[Token], p: usize) -> (op: Option<BinaryOp>)
    ensures
        op == product_op(tv(t), p as int),
{
    if is_text(t, p, "*") {
        Some(BinaryOp::Mul)
    } else if is_text(t, p, "/") {
        Some(BinaryOp::Div)
    } else if is_text(t, p, "%") {
        Some(BinaryOp::Rem)
    } else {
        None
    }
}

fn product_parser(t: &[Token], p: usize) -> (r: Option<(Expr, usize)>)
    requires
        p <= t@.len(),
        tokens_wf(tv(t)),
    ensures
        r matches Some((e, _)) ==> sexpr_wf(expr_view(e)),
        expr_result(r) == parse_product(tv(t), p as int),
        r matches Some((_, end)) ==> p < end <= t@.len(),
    decreases t@.len() - p, 11int,
{
    proof {
        unfold_parse_product(tv(t), p as int);
    }
    match unary_parser(t, p) {
        Some((first, end)) => {
            if end <= p {
                return None;
            }
            let mut lhs = first;
            let mut q = end;
            loop
                invariant
                    p < q <= t@.len(),
                    tokens_wf(tv(t)),
                    sexpr_wf(expr_view(lhs)),
                    parse_product(tv(t), p as int) == parse_product_rest(tv(t), q as int, expr_view(lhs)),
                decreases t@.len() - q,
            {
                proof {
                    unfold_parse_product_rest(tv(t), q as int, expr_view(lhs));
                }
                let op = if q < t.len() {
                    product_operator(t, q)
                } else {
                    None
                };
                match op {
                    Some(op) => match unary_parser(t, q + 1) {
                        Some((rhs, next)) => {
                            if next <= q {
                                return None;
                            }
                            lhs = Expr::Binary { lhs: Box::new(lhs), op, rhs: Box::new(rhs) };
                            q = next;
                        },
                        None => return Some((lhs, q)),
                    },
                    None => return Some((lhs, q)),
                }
            }
        },
        None => None,
    }
}

} // verus!

verus! {

fn prefix_operator(t: &[Token], p: usize) -> (op: Option<UnaryOp>)
    ensures
        op == prefix_op(tv(t), p as int),
{
    if is_kind(t, p, TokenKind::Ampersand) {
        Some(UnaryOp::Ref)
    } else if is_kind(t, p, TokenKind::Bang) {
        Some(UnaryOp::Not)
    } else if is_text(t, p, "-") {
        Some(UnaryOp::Neg)
    } else {
        None
    }
}

fn unary_parser(t: &[Token], p: usize) -> (r: Option<(Expr, usize)>)
    requires
        p <= t@.len(),
        tokens_wf(tv(t)),
    ensures
        r matches Some((e, _)) ==> sexpr_wf(expr_view(e)),
        expr_result(r) == parse_unary(tv(t), p as int),
        r matches Some((_, end)) ==> p < end <= t@.len(),
    decreases t@.len() - p, 9int,
{
    proof {
        unfold_parse_unary(tv(t), p as int);
    }
    if p < t.len() && is_keyword(t, p, "return") {
        match expr_parser_at(t, p + 1) {
            Some((e, end)) => {
                return Some((Expr::Return(Box::new(e)), end));
            },
            None => {},
        }
    }
    prefixed_parser(t, p)
}

/// Applies `ops` to `e`, the first operator outermost.
fn apply_prefixes(ops: &Vec<UnaryOp>, e: Expr) -> (r: Expr)
    requires
        sexpr_wf(expr_view(e)),
    ensures
        sexpr_wf(expr_view(r)),
        expr_view(r) == fold_unary(ops@, expr_view(e)),
{
    let ghost inner = expr_view(e);
    let mut acc = e;
    let mut k = ops.len();
    assert(ops@.subrange(k as int, ops@.len() as int) =~= Seq::<UnaryOp>::empty());
    while k > 0
        invariant
            k <= ops@.len(),
            expr_view(acc) == fold_unary(ops@.subrange(k as int, ops@.len() as int), inner),
            sexpr_wf(expr_view(acc)),
        decreases k,
    {
        k -= 1;
        let ghost tail = ops@.subrange(k as int, ops@.len() as int);
        assert(tail.drop_first() =~= ops@.subrange(k + 1, ops@.len() as int));
        acc = Expr::Unary { op: ops[k], expr: Box::new(acc) };
    }
    assert(ops@.subrange(0, ops@.len() as int) =~= ops@);
    acc
}

fn prefixed_parser(t: &[Token], p: usize) -> (r: Option<(Expr, usize)>)
    requires
        p <= t@.len(),
        tokens_wf(tv(t)),
    ensures
        r matches Some((e, _)) ==> sexpr_wf(expr_view(e)),
        expr_result(r) == parse_prefixed(tv(t), p as int),
        r matches Some((_, end)) ==> p < end <= t@.len(),
    decreases t@.len() - p, 8int,
{
    proof {
        unfold_parse_prefixed(tv(t), p as int);
    }
    let mut ops: Vec<UnaryOp> = Vec::new();
    let mut q = p;
    loop
        invariant
            p <= q <= t@.len(),
            tokens_wf(tv(t)),
            prefix_end(tv(t), p as int) == prefix_end(tv(t), q as int),
            ops@ == prefix_ops(tv(t), p as int, q as int),
        ensures
            q >= t@.len() || prefix_op(tv(t), q as int) is None,
        decreases t@.len() - q,
    {
        if q >= t.len() {
            break;
        }
        match prefix_operator(t, q) {
            Some(op) => {
                ops.push(op);
                q += 1;
                assert(ops@ =~= prefix_ops(tv(t), p as int, q as int));
            },
            None => break,
        }
    }
    assert(prefix_end(tv(t), q as int) == q as int);
    match postfix_parser(t, q) {
        Some((e, end)) => Some((apply_prefixes(&ops, e), end)),
        None => postfix_parser(t, p),
    }
}

fn postfix_parser(t: &[Token], p: usize) -> (r: Option<(Expr, usize)>)
    requires
        p <= t@.len(),
        tokens_wf(tv(t)),
    ensures
        r matches Some((e, _)) ==> sexpr_wf(expr_view(e)),
        expr_result(r) == parse_postfix(tv(t), p as int),
        r matches Some((_, end)) ==> p < end <= t@.len(),
    decreases t@.len() - p, 7int,
{
    proof {
        unfold_parse_postfix(tv(t), p as int);
    }
    let (first, end) = match atom_parser(t, p) {
        Some(found) => found,
        None => return None,
    };
    if end <= p {
        return None;
    }
    let mut e = first;
    let mut q = end;
    loop
        invariant
            p < q <= t@.len(),
            tokens_wf(tv(t)),
            sexpr_wf(expr_view(e)),
            parse_postfix(tv(t), p as int) == parse_suffixes(tv(t), q as int, expr_view(e)),
        decreases t@.len() - q,
    {
        proof {
            unfold_parse_suffixes(tv(t), q as int, expr_view(e));
        }
        match args_parser(t, q) {
            Some((args, next)) => {
                e = Expr::Call { callee: Box::new(e), args };
                q = next;
                continue ;
            },
            None => {},
        }
        if q < t.len() && is_kind(t, q, TokenKind::OpenBracket) {
            match expr_parser_at(t, q + 1) {
                Some((index, close)) => {
                    if is_kind(t, close, TokenKind::CloseBracket) {
                        e = Expr::Index { receiver: Box::new(e), index: Box::new(index) };
                        q = close + 1;
                        continue ;
                    }
                },
                None => {},
            }
        }
        if q < t.len() && is_kind(t, q, TokenKind::Dot) && is_kind(t, q + 1, TokenKind::Ident) {
            let name = t[q + 1].text.clone();
            match args_parser(t, q + 2) {
                Some((args, next)) => {
                    e = Expr::MethodCall { receiver: Box::new(e), method: name, args };
                    q = next;
                },
                None => {
                    e = Expr::Field { receiver: Box::new(e), name };
                    q = q + 2;
                },
            }
            continue ;
        }
        return Some((e, q));
    }
}

fn args_parser(t: &[Token], p: usize) -> (r: Option<(Vec<Expr>, usize)>)
    requires
        p <= t@.len(),
        tokens_wf(tv(t)),
    ensures
        match r {
            Some((args, end)) => parse_args(tv(t), p as int) == Some(
                (exprs_view(args@), end as int),
            ),
            None => parse_args(tv(t), p as int) is None,
        },
        r matches Some((_, end)) ==> p < end <= t@.len(),
        r matches Some((args, _)) ==> sexprs_wf(exprs_view(args@)),
    decreases t@.len() - p, 6int,
{
    proof {
        unfold_parse_args(tv(t), p as int);
    }
    if p < t.len() && is_kind(t, p, TokenKind::OpenParen) {
        let (items, end) = expr_list_parser(t, p + 1);
        if is_kind(t, end, TokenKind::CloseParen) {
            Some((items, end + 1))
        } else {
            None
        }
    } else {
        None
    }
}

fn expr_list_parser(t: &[Token], p: usize) -> (r: (Vec<Expr>, usize))
    requires
        p <= t@.len(),
        tokens_wf(tv(t)),
    ensures
        (exprs_view(r.0@), r.1 as int) == parse_expr_list(tv(t), p as int),
        sexprs_wf(exprs_view(r.0@)),
        p <= r.1 <= t@.len(),
    decreases t@.len() - p, 21int,
{
    proof {
        unfold_parse_expr_list(tv(t), p as int);
    }
    let mut items: Vec<Expr> = Vec::new();
    assert(exprs_view(items@) =~= Seq::<SExpr>::empty());
    let (first, end) = match expr_parser_at(t, p) {
        Some(found) => found,
        None => return (items, p),
    };
    items.push(first);
    assert(items@.drop_last() =~= Seq::<Expr>::empty());
    assert(exprs_view(items@) =~= seq![expr_view(first)]);
    let mut q = end;
    loop
        invariant
            p < q <= t@.len(),
            tokens_wf(tv(t)),
            sexprs_wf(exprs_view(items@)),
            parse_expr_list(tv(t), p as int) == parse_expr_list_rest(
                tv(t),
                q as int,
                exprs_view(items@),
            ),
        decreases t@.len() - q,
    {
        proof {
            unfold_parse_expr_list_rest(tv(t), q as int, exprs_view(items@));
        }
        if !(q < t.len() && is_kind(t, q, TokenKind::Comma)) {
            return (items, q);
        }
        match expr_parser_at(t, q + 1) {
            Some((next, after)) => {
                let ghost before = items@;
                items.push(next);
                assert(items@.drop_last() == before);
                q = after;
            },
            None => return (items, q + 1),
        }
    }
}

fn entry_parser(t: &[Token], p: usize) -> (r: Option<(MapEntry, usize)>)
    requires
        p <= t@.len(),
        tokens_wf(tv(t)),
    ensures
        match r {
            Some((entry, end)) => parse_entry(tv(t), p as int) == Some(
                (SEntry { key: expr_view(entry.key), value: expr_view(entry.value) }, end as int),
            ),
            None => parse_entry(tv(t), p as int) is None,
        },
        r matches Some((entry, _)) ==> sexpr_wf(expr_view(entry.key)) && sexpr_wf(
            expr_view(entry.value),
        ),
        r matches Some((_, end)) ==> p < end <= t@.len(),
    decreases t@.len() - p, 21int,
{
    proof {
        unfold_parse_entry(tv(t), p as int);
    }
    match expr_parser_at(t, p) {
        Some((key, colon)) => {
            if colon < t.len() && is_kind(t, colon, TokenKind::Colon) {
                match expr_parser_at(t, colon + 1) {
                    Some((value, end)) => Some((MapEntry { key, value }, end)),
                    None => None,
                }
            } else {
                None
            }
        },
        None => None,
    }
}

fn entry_list_parser(t: &[Token], p: usize) -> (r: (Vec<MapEntry>, usize))
    requires
        p <= t@.len(),
        tokens_wf(tv(t)),
    ensures
        (entries_view(r.0@), r.1 as int) == parse_entry_list(tv(t), p as int),
        forall|i: int|
            0 <= i < entries_view(r.0@).len() ==> sexpr_wf(
                (#[trigger] entries_view(r.0@)[i]).key,
            ) && sexpr_wf(entries_view(r.0@)[i].value),
        p <= r.1 <= t@.len(),
    decreases t@.len() - p, 22int,
{
    proof {
        unfold_parse_entry_list(tv(t), p as int);
    }
    let mut entries: Vec<MapEntry> = Vec::new();
    assert(entries_view(entries@) =~= Seq::<SEntry>::empty());
    let (first, end) = match entry_parser(t, p) {
        Some(found) => found,
        None => return (entries, p),
    };
    let ghost first_view = SEntry { key: expr_view(first.key), value: expr_view(first.value) };
    entries.push(first);
    assert(entries@.drop_last() =~= Seq::<MapEntry>::empty());
    assert(entries_view(entries@) =~= seq![first_view]);
    let mut q = end;
    loop
        invariant
            p < q <= t@.len(),
            tokens_wf(tv(t)),
            forall|i: int|
                0 <= i < entries_view(entries@).len() ==> sexpr_wf(
                    (#[trigger] entries_view(entries@)[i]).key,
                ) && sexpr_wf(entries_view(entries@)[i].value),
            parse_entry_list(tv(t), p as int) == parse_entry_list_rest(
                tv(t),
                q as int,
                entries_view(entries@),
            ),
        decreases t@.len() - q,
    {
        proof {
            unfold_parse_entry_list_rest(tv(t), q as int, entries_view(entries@));
        }
        if !(q < t.len() && is_kind(t, q, TokenKind::Comma)) {
            return (entries, q);
        }
        match entry_parser(t, q + 1) {
            Some((next, after)) => {
                let ghost before = entries@;
                entries.push(next);
                assert(entries@.drop_last() == before);
                q = after;
            },
            None => return (entries, q + 1),
        }
    }
}

fn closure_parser(t: &[Token], p: usize) -> (r: Option<(Expr, usize)>)
    requires
        p <= t@.len(),
        tokens_wf(tv(t)),
    ensures
        r matches Some((e, _)) ==> sexpr_wf(expr_view(e)),
        expr_result(r) == parse_closure(tv(t), p as int),
        r matches Some((_, end)) ==> p < end <= t@.len(),
    decreases t@.len() - p, 4int,
{
    proof {
        unfold_parse_closure(tv(t), p as int);
    }
    let (param, arrow) = if is_kind(t, p, TokenKind::Ident) {
        (t[p].text.clone(), p + 1)
    } else if p < t.len() && is_kind(t, p, TokenKind::OpenParen) && is_kind(
        t,
        p + 1,
        TokenKind::Ident,
    ) && is_kind(t, p + 2, TokenKind::CloseParen) {
        (t[p + 1].text.clone(), p + 3)
    } else {
        return None;
    };
    if !is_kind(t, arrow, TokenKind::FatArrow) {
        return None;
    }
    match expr_parser_at(t, arrow + 1) {
        Some((body, end)) => Some((Expr::Closure { param, body: Box::new(body) }, end)),
        None => None,
    }
}

fn array_parser(t: &[Token], p: usize) -> (r: Option<(Expr, usize)>)
    requires
        p <= t@.len(),
        tokens_wf(tv(t)),
    ensures
        r matches Some((e, _)) ==> sexpr_wf(expr_view(e)),
        expr_result(r) == parse_array(tv(t), p as int),
        r matches Some((_, end)) ==> p < end <= t@.len(),
    decreases t@.len() - p, 4int,
{
    proof {
        unfold_parse_array(tv(t), p as int);
    }
    if p < t.len() && is_kind(t, p, TokenKind::OpenBracket) {
        let (items, end) = expr_list_parser(t, p + 1);
        if is_kind(t, end, TokenKind::CloseBracket) {
            Some((Expr::Array(items), end + 1))
        } else {
            None
        }
    } else {
        None
    }
}

fn map_literal_parser(t: &[Token], p: usize) -> (r: Option<(Expr, usize)>)
    requires
        p <= t@.len(),
        tokens_wf(tv(t)),
    ensures
        r matches Some((e, _)) ==> sexpr_wf(expr_view(e)),
        expr_result(r) == parse_map_literal(tv(t), p as int),
        r matches Some((_, end)) ==> p < end <= t@.len(),
    decreases t@.len() - p, 4int,
{
    proof {
        unfold_parse_map_literal(tv(t), p as int);
    }
    if p < t.len() && is_kind(t, p, TokenKind::OpenBrace) {
        let (entries, end) = entry_list_parser(t, p + 1);
        if is_kind(t, end, TokenKind::CloseBrace) {
            Some((Expr::MapLiteral(entries), end + 1))
        } else {
            None
        }
    } else {
        None
    }
}

fn paren_parser(t: &[Token], p: usize) -> (r: Option<(Expr, usize)>)
    requires
        p <= t@.len(),
        tokens_wf(tv(t)),
    ensures
        r matches Some((e, _)) ==> sexpr_wf(expr_view(e)),
        expr_result(r) == parse_paren(tv(t), p as int),
        r matches Some((_, end)) ==> p < end <= t@.len(),
    decreases t@.len() - p, 4int,
{
    proof {
        unfold_parse_paren(tv(t), p as int);
    }
    if p < t.len() && is_kind(t, p, TokenKind::OpenParen) {
        match expr_parser_at(t, p + 1) {
            Some((inner, end)) => {
                if is_kind(t, end, TokenKind::CloseParen) {
                    assert(parse_expr(tv(t), p + 1) == Some((expr_view(inner), end as int)));
                    assert(kind_at(tv(t), p as int, TokenKind::OpenParen));
                    assert(in_range(tv(t), p as int));
                    assert(parse_paren(tv(t), p as int) == Some((SExpr::Paren(Box::new(expr_view(inner))), end + 1)));
                    Some((Expr::Paren(Box::new(inner)), end + 1))
                } else {
                    None
                }
            },
            None => None,
        }
    } else {
        None
    }
}

fn macro_call_parser(t: &[Token], p: usize) -> (r: Option<(Expr, usize)>)
    requires
        p <= t@.len(),
        tokens_wf(tv(t)),
    ensures
        r matches Some((e, _)) ==> sexpr_wf(expr_view(e)),
        expr_result(r) == parse_macro_call(tv(t), p as int),
        r matches Some((_, end)) ==> p < end <= t@.len(),
    decreases t@.len() - p, 4int,
{
    proof {
        unfold_parse_macro_call(tv(t), p as int);
    }
    match path_parser(t, p) {
        Some((path, bang)) => {
            if bang < t.len() && is_kind(t, bang, TokenKind::Bang) {
                match args_parser(t, bang + 1) {
                    Some((args, end)) => Some((Expr::MacroCall { path, args }, end)),
                    None => None,
                }
            } else {
                None
            }
        },
        None => None,
    }
}

fn literal_parser(t: &[Token], p: usize) -> (r: Option<(Expr, usize)>)
    requires
        p <= t@.len(),
        tokens_wf(tv(t)),
    ensures
        r matches Some((e, _)) ==> sexpr_wf(expr_view(e)),
        expr_result(r) == parse_literal(tv(t), p as int),
        r matches Some((_, end)) ==> p < end <= t@.len(),
{
    proof {
    }
    if is_kind(t, p, TokenKind::String) {
        let literal = StringLiteral { raw: t[p].text.clone(), span: t[p].span };
        Some((Expr::String(literal), p + 1))
    } else if is_kind(t, p, TokenKind::Number) {
        Some((Expr::Number(t[p].text.clone()), p + 1))
    } else if is_kind(t, p, TokenKind::Char) {
        Some((Expr::Char(t[p].text.clone()), p + 1))
    } else {
        None
    }
}

fn atom_parser(t: &[Token], p: usize) -> (r: Option<(Expr, usize)>)
    requires
        p <= t@.len(),
        tokens_wf(tv(t)),
    ensures
        r matches Some((e, _)) ==> sexpr_wf(expr_view(e)),
        expr_result(r) == parse_atom(tv(t), p as int),
        r matches Some((_, end)) ==> p < end <= t@.len(),
    decreases t@.len() - p, 5int,
{
    proof {
        unfold_parse_atom(tv(t), p as int);
    }
    if let Some(found) = closure_parser(t, p) {
        return Some(found);
    }
    if let Some(found) = array_parser(t, p) {
        return Some(found);
    }
    if let Some(found) = map_literal_parser(t, p) {
        return Some(found);
    }
    if let Some(found) = paren_parser(t, p) {
        return Some(found);
    }
    if let Some(found) = macro_call_parser(t, p) {
        return Some(found);
    }
    if let Some(found) = literal_parser(t, p) {
        return Some(found);
    }
    match path_parser(t, p) {
        Some((path, end)) => Some((Expr::Path(path), end)),
        None => None,
    }
}

/// Parses one expression starting at token `p`.
pub fn expression_parser(t: &[Token], p: usize) -> (r: Option<(Expr, usize)>)
    requires
        p <= t@.len(),
        tokens_wf(tv(t)),
    ensures
        r matches Some((e, _)) ==> sexpr_wf(expr_view(e)),
        expr_result(r) == parse_expr(tv(t), p as int),
        r matches Some((_, end)) ==> p < end <= t@.len(),
{
    expr_parser_at(t, p)
}

} // verus!
