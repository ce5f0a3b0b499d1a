//! Rust text of expressions, string literals and iterator helper chains.
use crate::text::{chars_of, push_all, push_range, push_str, str_eq, string_of};
use crate::transpiler::compiler::ast::{
    Expr, MapEntry, SEntry, SExpr, UnaryOp, entries_view, expr_view, exprs_view, lemma_entries_view,
    lemma_exprs_view, literal_wf, sexpr_wf, strings_view,
};
use crate::transpiler::compiler::lexer::{
    Token, lex_chars, lex_spec, token_views, tokens_wf, tokens_within,
};
use crate::transpiler::compiler::parser::items_spec::parse_whole_expression;
use crate::transpiler::compiler::parser::parse_expression;
use crate::transpiler::error::{Span, TranspileError};
use super::spec::{
    ExprContext, GenError, HelperKind, IteratorKind, chain_base, is_error, lex_error, parse_error_of, chain_text, ctx_rank, default_ctx,
    deref_count, embedded_args, format_text, gen_chain, gen_entries, gen_expr, gen_exprs,
    gen_string_literal, helper_argument, helper_kind, interpolations, is_helper_call, iterator_kind,
    join, lemma_join_push, literal_content, preserve_ctx, rewrite_closure_body, rust_name,
    shift_tokens, unfold_chain_base, unfold_chain_text, unfold_embedded_args,
    unfold_gen_chain, unfold_gen_embedded, unfold_gen_entries, unfold_gen_expr, unfold_gen_exprs,
    unfold_gen_string_literal, unfold_helper_argument, lemma_gen_exprs_prefix,
    lemma_gen_entries_prefix, lemma_embedded_args_prefix,
};
use super::text::{
    ends_with_str, find_interpolations, lemma_interpolations_ordered,
    push_escaped_format, push_join, push_join_strings, spots_ordered, spots_view,
    texts,
};
use super::types::generate_binary_op;
use vstd::prelude::*;

verus! {

/// The generator wrote `g` after `before`, or failed exactly where `g` is an error, with
/// that error.
pub open spec fn wrote(
    r: Result<(), TranspileError>,
    g: Result<Seq<char>, GenError>,
    before: Seq<char>,
    after: Seq<char>,
) -> bool {
    &&& r is Ok <==> g is Ok
    &&& r is Ok ==> after == before + g->Ok_0
    &&& r matches Err(e) ==> g matches Err(err) && is_error(e, err)
}

pub fn helper_of(name: &str) -> (kind: Option<HelperKind>)
    ensures
        kind == helper_kind(name@),
{
    if str_eq(name, "map") {
        Some(HelperKind::MapHelper)
    } else if str_eq(name, "filter") {
        Some(HelperKind::Filter)
    } else if str_eq(name, "find") {
        Some(HelperKind::Find)
    } else if str_eq(name, "findIndex") {
        Some(HelperKind::FindIndex)
    } else {
        None
    }
}

fn is_helper_expr(e: &Expr) -> (b: bool)
    ensures
        b == is_helper_call(expr_view(*e)),
{
    match e {
        Expr::MethodCall { method, .. } => helper_of(method.as_str()).is_some(),
        _ => false,
    }
}

pub fn rust_name_of(kind: HelperKind) -> (name: &'static str)
    ensures
        name@ == rust_name(kind),
{
    match kind {
        HelperKind::MapHelper => ".map",
        HelperKind::Filter => ".filter",
        HelperKind::Find => ".find",
        HelperKind::FindIndex => ".position",
    }
}

pub fn iterator_kind_of(receiver: &[char]) -> (kind: IteratorKind)
    ensures
        kind == iterator_kind(receiver@),
{
    if ends_with_str(receiver, ".into_iter()") {
        IteratorKind::IntoIter
    } else if ends_with_str(receiver, ".iter()") || ends_with_str(receiver, ".iter_mut()") {
        IteratorKind::Iter
    } else {
        IteratorKind::NeedsIter
    }
}

pub fn deref_count_of(kind: HelperKind, iter: IteratorKind) -> (n: usize)
    ensures
        n == deref_count(kind, iter),
{
    let items: usize = match iter {
        IteratorKind::IntoIter => 0,
        _ => 1,
    };
    let extra: usize = match kind {
        HelperKind::Filter | HelperKind::Find => 1,
        _ => 0,
    };
    items + extra
}

/// A closure body with the parameter dereferenced `n` times.
fn rewrite_body(body: &Vec<char>, param: &str, n: usize) -> (r: Vec<char>)
    ensures
        r@ == rewrite_closure_body(body@, param@, n as nat),
{
    let p = chars_of(param);
    crate::transpiler::source::iterators::rewrite_closure_body(body, &p, n)
}

/// Token spans moved `offset` characters to the right.
fn shift_token_spans(tokens: &Vec<Token>, offset: usize, len: Ghost<int>) -> (shifted: Vec<Token>)
    requires
        tokens_within(tokens@, len@),
        offset + len@ <= usize::MAX,
        tokens_wf(token_views(tokens@)),
    ensures
        token_views(shifted@) == shift_tokens(token_views(tokens@), offset as int),
        tokens_wf(token_views(shifted@)),
{
    let mut shifted: Vec<Token> = Vec::new();
    let mut i: usize = 0;
    while i < tokens.len()
        invariant
            i <= tokens@.len(),
            tokens_within(tokens@, len@),
            offset + len@ <= usize::MAX,
            tokens_wf(token_views(tokens@)),
            token_views(shifted@) == shift_tokens(token_views(tokens@), offset as int).take(i as int),
            tokens_wf(token_views(shifted@)),
        decreases tokens@.len() - i,
    {
        let t = &tokens[i];
        assert(t.span.start <= t.span.end <= len@);
        let token = Token {
            kind: t.kind,
            text: t.text.clone(),
            span: Span { start: t.span.start + offset, end: t.span.end + offset },
        };
        let ghost before = shifted@;
        shifted.push(token);
        proof {
            assert(token_views(shifted@) =~= token_views(before).push(token@));
            assert(shift_tokens(token_views(tokens@), offset as int).take(i + 1) =~= shift_tokens(
                token_views(tokens@),
                offset as int,
            ).take(i as int).push(token@));
            assert forall|k: int|
                0 <= k < token_views(shifted@).len() && (#[trigger] token_views(shifted@)[k]).kind
                    == crate::transpiler::compiler::lexer::TokenKind::String implies token_views(
                shifted@,
            )[k].text.len() >= 2 && token_views(shifted@)[k].start + token_views(shifted@)[k].text.len()
                <= usize::MAX && 0 <= token_views(shifted@)[k].start by {
                if k == i {
                    assert(token_views(tokens@)[k].kind == crate::transpiler::compiler::lexer::TokenKind::String);
                } else {
                    assert(token_views(shifted@)[k] == token_views(before)[k]);
                }
            }
        }
        i += 1;
    }
    assert(shift_tokens(token_views(tokens@), offset as int).take(tokens@.len() as int) =~= shift_tokens(
        token_views(tokens@),
        offset as int,
    ));
    shifted
}

/// Appends the Rust text of an expression.
pub fn push_expr(out: &mut Vec<char>, expr: &Expr, ctx: ExprContext) -> (r: Result<(), TranspileError>)
    requires
        sexpr_wf(expr_view(*expr)),
    ensures
        wrote(r, gen_expr(expr_view(*expr), ctx), old(out)@, final(out)@),
    decreases ctx_rank(ctx), *expr, 3int, 0int,
{
    let ghost ev = expr_view(*expr);
    proof {
        unfold_gen_expr(ev, ctx);
    }
    if is_helper_expr(expr) {
        return push_chain(out, expr, ctx);
    }
    let plain = ExprContext { preserve_strings: false, in_interpolation: ctx.in_interpolation };
    let keep = ExprContext { preserve_strings: true, in_interpolation: ctx.in_interpolation };
    assert(plain == default_ctx(ctx) && keep == preserve_ctx(ctx));
    match expr {
        Expr::Path(path) => {
            push_join_strings(out, &path.segments, "::");
            assert(out@ =~= old(out)@ + gen_expr(ev, ctx)->Ok_0);
            Ok(())
        },
        Expr::String(_) => push_string_literal(out, expr, ctx),
        Expr::Array(_) | Expr::MapLiteral(_) => push_collection(out, expr, ctx),
        Expr::Call { .. } | Expr::MacroCall { .. } | Expr::MethodCall { .. } => push_call(out, expr, ctx),
        Expr::Index { .. } | Expr::Unary { .. } | Expr::Binary { .. } => push_operator(out, expr, ctx),
        Expr::Number(text) => {
            push_str(out, text.as_str());
            assert(out@ =~= old(out)@ + gen_expr(ev, ctx)->Ok_0);
            Ok(())
        },
        Expr::Char(text) => {
            push_str(out, text.as_str());
            assert(out@ =~= old(out)@ + gen_expr(ev, ctx)->Ok_0);
            Ok(())
        },
        Expr::Field { receiver, name } => {
            match push_expr(out, receiver, plain) {
                Ok(()) => {},
                Err(e) => {
                    return Err(e);
                },
            }
            push_str(out, ".");
            push_str(out, name.as_str());
            assert(out@ =~= old(out)@ + gen_expr(ev, ctx)->Ok_0);
            Ok(())
        },
        Expr::Closure { param, body } => {
            push_str(out, "|");
            push_str(out, param.as_str());
            push_str(out, "| ");
            match push_expr(out, body, plain) {
                Ok(()) => {
                    assert(out@ =~= old(out)@ + gen_expr(ev, ctx)->Ok_0);
                    Ok(())
                },
                Err(e) => Err(e),
            }
        },
        Expr::Paren(inner) => {
            push_str(out, "(");
            match push_expr(out, inner, plain) {
                Ok(()) => {},
                Err(e) => {
                    return Err(e);
                },
            }
            push_str(out, ")");
            assert(out@ =~= old(out)@ + gen_expr(ev, ctx)->Ok_0);
            Ok(())
        },
        Expr::Return(inner) => {
            push_str(out, "return ");
            match push_expr(out, inner, plain) {
                Ok(()) => {
                    assert(out@ =~= old(out)@ + gen_expr(ev, ctx)->Ok_0);
                    Ok(())
                },
                Err(e) => Err(e),
            }
        },
    }
}

/// Appends an array or a map literal.
fn push_collection(out: &mut Vec<char>, expr: &Expr, ctx: ExprContext) -> (r: Result<(), TranspileError>)
    requires
        sexpr_wf(expr_view(*expr)),
        *expr is Array || *expr is MapLiteral,
    ensures
        wrote(r, gen_expr(expr_view(*expr), ctx), old(out)@, final(out)@),
    decreases ctx_rank(ctx), *expr, 2int, 0int,
{
    let ghost ev = expr_view(*expr);
    proof {
        unfold_gen_expr(ev, ctx);
    }
    let plain = ExprContext { preserve_strings: false, in_interpolation: ctx.in_interpolation };
    let keep = ExprContext { preserve_strings: true, in_interpolation: ctx.in_interpolation };
    assert(plain == default_ctx(ctx) && keep == preserve_ctx(ctx));
    match expr {
        Expr::Array(items) => {
            assert(ev == SExpr::Array(exprs_view(items@)));
            push_str(out, "vec![");
            match push_expr_list(out, items, plain) {
                Ok(()) => {},
                Err(e) => {
                    return Err(e);
                },
            }
            push_str(out, "]");
            assert(out@ =~= old(out)@ + gen_expr(ev, ctx)->Ok_0);
            Ok(())
        },
        Expr::MapLiteral(entries) => {
            proof {
                lemma_entries_view(entries@);
            }
            if entries.len() == 0 {
                push_str(out, "std::collections::HashMap::new()");
                assert(out@ =~= old(out)@ + gen_expr(ev, ctx)->Ok_0);
                return Ok(());
            }
            push_str(out, "std::collections::HashMap::from([");
            match push_entries(out, entries, ctx) {
                Ok(()) => {},
                Err(e) => {
                    return Err(e);
                },
            }
            push_str(out, "])");
            assert(out@ =~= old(out)@ + gen_expr(ev, ctx)->Ok_0);
            Ok(())
        },
        _ => Ok(()),
    }
}

/// Appends a call, a macro call or a method call that is not a helper chain.
fn push_call(out: &mut Vec<char>, expr: &Expr, ctx: ExprContext) -> (r: Result<(), TranspileError>)
    requires
        sexpr_wf(expr_view(*expr)),
        !is_helper_call(expr_view(*expr)),
        *expr is Call || *expr is MacroCall || *expr is MethodCall,
    ensures
        wrote(r, gen_expr(expr_view(*expr), ctx), old(out)@, final(out)@),
    decreases ctx_rank(ctx), *expr, 2int, 0int,
{
    let ghost ev = expr_view(*expr);
    proof {
        unfold_gen_expr(ev, ctx);
    }
    let plain = ExprContext { preserve_strings: false, in_interpolation: ctx.in_interpolation };
    let keep = ExprContext { preserve_strings: true, in_interpolation: ctx.in_interpolation };
    assert(plain == default_ctx(ctx) && keep == preserve_ctx(ctx));
    match expr {
        Expr::Call { callee, args } => {
            match push_expr(out, callee, plain) {
                Ok(()) => {},
                Err(e) => {
                    return Err(e);
                },
            }
            push_str(out, "(");
            match push_expr_list(out, args, keep) {
                Ok(()) => {},
                Err(e) => {
                    return Err(e);
                },
            }
            push_str(out, ")");
            assert(out@ =~= old(out)@ + gen_expr(ev, ctx)->Ok_0);
            Ok(())
        },
        Expr::MacroCall { path, args } => {
            assert(ev == SExpr::MacroCall(strings_view(path.segments@), exprs_view(args@)));
            push_join_strings(out, &path.segments, "::");
            push_str(out, "!(");
            match push_expr_list(out, args, keep) {
                Ok(()) => {},
                Err(e) => {
                    return Err(e);
                },
            }
            push_str(out, ")");
            assert(out@ =~= old(out)@ + gen_expr(ev, ctx)->Ok_0);
            Ok(())
        },
        Expr::MethodCall { receiver, method, args } => {
            proof {
                lemma_exprs_view(args@);
            }
            assert(ev == SExpr::MethodCall(Box::new(expr_view(**receiver)), method@, exprs_view(args@)));
            if str_eq(method.as_str(), "view") && args.len() == 0 {
                match push_expr(out, receiver, plain) {
                    Ok(()) => {},
                    Err(e) => {
                        return Err(e);
                    },
                }
                push_str(out, ".as_str()");
                assert(out@ =~= old(out)@ + gen_expr(ev, ctx)->Ok_0);
                return Ok(());
            }
            match push_expr(out, receiver, plain) {
                Ok(()) => {},
                Err(e) => {
                    return Err(e);
                },
            }
            push_str(out, ".");
            push_str(out, method.as_str());
            push_str(out, "(");
            match push_expr_list(out, args, keep) {
                Ok(()) => {},
                Err(e) => {
                    return Err(e);
                },
            }
            push_str(out, ")");
            assert(out@ =~= old(out)@ + gen_expr(ev, ctx)->Ok_0);
            Ok(())
        },
        _ => Ok(()),
    }
}

/// Appends an indexing, a unary or a binary operation.
fn push_operator(out: &mut Vec<char>, expr: &Expr, ctx: ExprContext) -> (r: Result<(), TranspileError>)
    requires
        sexpr_wf(expr_view(*expr)),
        *expr is Index || *expr is Unary || *expr is Binary,
    ensures
        wrote(r, gen_expr(expr_view(*expr), ctx), old(out)@, final(out)@),
    decreases ctx_rank(ctx), *expr, 2int, 0int,
{
    let ghost ev = expr_view(*expr);
    proof {
        unfold_gen_expr(ev, ctx);
    }
    let plain = ExprContext { preserve_strings: false, in_interpolation: ctx.in_interpolation };
    let keep = ExprContext { preserve_strings: true, in_interpolation: ctx.in_interpolation };
    assert(plain == default_ctx(ctx) && keep == preserve_ctx(ctx));
    match expr {
        Expr::Index { receiver, index } => {
            match push_expr(out, receiver, plain) {
                Ok(()) => {},
                Err(e) => {
                    return Err(e);
                },
            }
            push_str(out, "[");
            match push_expr(out, index, keep) {
                Ok(()) => {},
                Err(e) => {
                    return Err(e);
                },
            }
            push_str(out, "]");
            assert(out@ =~= old(out)@ + gen_expr(ev, ctx)->Ok_0);
            Ok(())
        },
        Expr::Unary { op, expr: inner } => {
            let inner_ctx = match op {
                UnaryOp::Ref => {
                    push_str(out, "&");
                    keep
                },
                UnaryOp::Not => {
                    push_str(out, "!");
                    plain
                },
                UnaryOp::Neg => {
                    push_str(out, "-");
                    plain
                },
            };
            match push_expr(out, inner, inner_ctx) {
                Ok(()) => {
                    assert(out@ =~= old(out)@ + gen_expr(ev, ctx)->Ok_0);
                    Ok(())
                },
                Err(e) => Err(e),
            }
        },
        Expr::Binary { lhs, op, rhs } => {
            match push_expr(out, lhs, plain) {
                Ok(()) => {},
                Err(e) => {
                    return Err(e);
                },
            }
            push_str(out, " ");
            push_str(out, generate_binary_op(op));
            push_str(out, " ");
            match push_expr(out, rhs, plain) {
                Ok(()) => {
                    assert(out@ =~= old(out)@ + gen_expr(ev, ctx)->Ok_0);
                    Ok(())
                },
                Err(e) => Err(e),
            }
        },
        _ => Ok(()),
    }
}

/// Appends the texts of expressions with `, ` between them.
fn push_expr_list(out: &mut Vec<char>, items: &Vec<Expr>, ctx: ExprContext) -> (r: Result<(), TranspileError>)
    requires
        forall|i: int|
            0 <= i < exprs_view(items@).len() ==> sexpr_wf(#[trigger] exprs_view(items@)[i]),
    ensures
        r is Ok <==> gen_exprs(exprs_view(items@), ctx) is Ok,
        r is Ok ==> final(out)@ == old(out)@ + join(gen_exprs(exprs_view(items@), ctx)->Ok_0, ", "@),
        r matches Err(e) ==> gen_exprs(exprs_view(items@), ctx) matches Err(err) && is_error(e, err),
    decreases ctx_rank(ctx), *items, 0int, 0int,
{
    let ghost start = out@;
    let ghost ev = exprs_view(items@);
    proof {
        lemma_exprs_view(items@);
        assert(ev.take(0) =~= Seq::<SExpr>::empty());
        unfold_gen_exprs(ev.take(0), ctx);
    }
    assert(decreases_to!(*items => items@));
    let mut i: usize = 0;
    while i < items.len()
        invariant
            i <= items@.len(),
            ev == exprs_view(items@),
            ev.len() == items@.len(),
            forall|k: int| 0 <= k < items@.len() ==> #[trigger] ev[k] == expr_view(items@[k]),
            forall|k: int| 0 <= k < items@.len() ==> sexpr_wf(#[trigger] ev[k]),
            gen_exprs(ev.take(i as int), ctx) is Ok,
            gen_exprs(ev.take(i as int), ctx)->Ok_0.len() == i,
            out@ == start + join(gen_exprs(ev.take(i as int), ctx)->Ok_0, ", "@),
            decreases_to!(*items => items@),
        decreases items@.len() - i,
    {
        let ghost parts = gen_exprs(ev.take(i as int), ctx)->Ok_0;
        proof {
            assert(ev.take(i + 1).drop_last() =~= ev.take(i as int));
            unfold_gen_exprs(ev.take(i + 1), ctx);
        }
        if i > 0 {
            push_str(out, ", ");
        }
        assert(decreases_to!(items@ => items@[i as int]));
        match push_expr(out, &items[i], ctx) {
            Ok(()) => {},
            Err(e) => {
                proof {
                    lemma_gen_exprs_prefix(ev, i + 1, ctx);
                }
                return Err(e);
            },
        }
        proof {
            let g = gen_expr(ev[i as int], ctx)->Ok_0;
            lemma_join_push(parts, g, ", "@);
            assert(out@ =~= start + join(parts.push(g), ", "@));
        }
        i += 1;
    }
    assert(ev.take(ev.len() as int) =~= ev);
    Ok(())
}

/// Appends the `(key, value)` texts of map entries with `, ` between them.
fn push_entries(out: &mut Vec<char>, entries: &Vec<MapEntry>, ctx: ExprContext) -> (r: Result<(), TranspileError>)
    requires
        forall|i: int|
            0 <= i < entries_view(entries@).len() ==> sexpr_wf(#[trigger] entries_view(entries@)[i].key) && sexpr_wf(
                entries_view(entries@)[i].value,
            ),
    ensures
        r is Ok <==> gen_entries(entries_view(entries@), ctx) is Ok,
        r is Ok ==> final(out)@ == old(out)@ + join(gen_entries(entries_view(entries@), ctx)->Ok_0, ", "@),
        r matches Err(e) ==> gen_entries(entries_view(entries@), ctx) matches Err(err) && is_error(e, err),
    decreases ctx_rank(ctx), *entries, 0int, 0int,
{
    let ghost start = out@;
    let ghost ev = entries_view(entries@);
    let plain = ExprContext { preserve_strings: false, in_interpolation: ctx.in_interpolation };
    proof {
        lemma_entries_view(entries@);
        assert(ev.take(0) =~= Seq::<SEntry>::empty());
        unfold_gen_entries(ev.take(0), ctx);
    }
    assert(decreases_to!(*entries => entries@));
    let mut i: usize = 0;
    while i < entries.len()
        invariant
            i <= entries@.len(),
            plain == default_ctx(ctx),
            ev == entries_view(entries@),
            ev.len() == entries@.len(),
            forall|k: int|
                0 <= k < entries@.len() ==> #[trigger] ev[k] == (SEntry {
                    key: expr_view(entries@[k].key),
                    value: expr_view(entries@[k].value),
                }),
            forall|k: int| 0 <= k < entries@.len() ==> sexpr_wf(#[trigger] ev[k].key) && sexpr_wf(ev[k].value),
            gen_entries(ev.take(i as int), ctx) is Ok,
            gen_entries(ev.take(i as int), ctx)->Ok_0.len() == i,
            out@ == start + join(gen_entries(ev.take(i as int), ctx)->Ok_0, ", "@),
            decreases_to!(*entries => entries@),
        decreases entries@.len() - i,
    {
        let ghost parts = gen_entries(ev.take(i as int), ctx)->Ok_0;
        proof {
            assert(ev.take(i + 1).drop_last() =~= ev.take(i as int));
            unfold_gen_entries(ev.take(i + 1), ctx);
        }
        let ghost e0 = ev[i as int];
        assert(e0.key == expr_view(entries@[i as int].key));
        if i > 0 {
            push_str(out, ", ");
        }
        push_str(out, "(");
        assert(decreases_to!(entries@ => entries@[i as int]));
        assert(decreases_to!(entries@[i as int] => entries@[i as int].key));
        assert(decreases_to!(entries@[i as int] => entries@[i as int].value));
        match push_expr(out, &entries[i].key, plain) {
            Ok(()) => {},
            Err(e) => {
                proof {
                    lemma_gen_entries_prefix(ev, i + 1, ctx);
                }
                return Err(e);
            },
        }
        push_str(out, ", ");
        match push_expr(out, &entries[i].value, plain) {
            Ok(()) => {},
            Err(e) => {
                proof {
                    lemma_gen_entries_prefix(ev, i + 1, ctx);
                }
                return Err(e);
            },
        }
        push_str(out, ")");
        proof {
            let k = gen_expr(e0.key, plain)->Ok_0;
            let v = gen_expr(e0.value, plain)->Ok_0;
            let g = "("@ + k + ", "@ + v + ")"@;
            lemma_join_push(parts, g, ", "@);
            assert(out@ =~= start + join(parts.push(g), ", "@));
        }
        i += 1;
    }
    assert(ev.take(ev.len() as int) =~= ev);
    Ok(())
}

/// Appends a chain of iterator helpers.
fn push_chain(out: &mut Vec<char>, expr: &Expr, ctx: ExprContext) -> (r: Result<(), TranspileError>)
    requires
        sexpr_wf(expr_view(*expr)),
        is_helper_call(expr_view(*expr)),
    ensures
        wrote(r, gen_chain(expr_view(*expr), ctx), old(out)@, final(out)@),
    decreases ctx_rank(ctx), *expr, 2int, 0int,
{
    let ghost ev = expr_view(*expr);
    proof {
        unfold_gen_chain(ev, ctx);
    }
    let kind = match expr {
        Expr::MethodCall { method, .. } => {
            assert(ev->MethodCall_1 == method@);
            helper_of(method.as_str()).unwrap()
        },
        _ => HelperKind::Find,
    };
    assert(kind == helper_kind(ev->MethodCall_1).unwrap());
    let mut base: Vec<char> = Vec::new();
    match push_chain_base(&mut base, expr, ctx) {
        Ok(()) => {},
        Err(e) => {
            return Err(e);
        },
    }
    assert(base@ =~= chain_base(ev, ctx)->Ok_0);
    let iter = iterator_kind_of(&base);
    match push_chain_text(out, expr, ctx, iter, &base) {
        Ok(()) => {},
        Err(e) => {
            return Err(e);
        },
    }
    let ghost text = chain_text(ev, ctx, iter)->Ok_0;
    match kind {
        HelperKind::MapHelper | HelperKind::Filter => {
            push_str(out, ".collect()");
            assert(out@ =~= old(out)@ + (text + ".collect()"@));
        },
        _ => {
            assert(out@ =~= old(out)@ + (text + Seq::<char>::empty()));
        },
    }
    Ok(())
}

/// Appends the receiver under a chain of helpers.
fn push_chain_base(out: &mut Vec<char>, expr: &Expr, ctx: ExprContext) -> (r: Result<(), TranspileError>)
    requires
        sexpr_wf(expr_view(*expr)),
        is_helper_call(expr_view(*expr)),
    ensures
        wrote(r, chain_base(expr_view(*expr), ctx), old(out)@, final(out)@),
    decreases ctx_rank(ctx), *expr, 1int, 0int,
{
    proof {
        unfold_chain_base(expr_view(*expr), ctx);
    }
    match expr {
        Expr::MethodCall { receiver, .. } => {
            if is_helper_expr(receiver) {
                push_chain_base(out, receiver, ctx)
            } else {
                push_expr(
                    out,
                    receiver,
                    ExprContext { preserve_strings: false, in_interpolation: ctx.in_interpolation },
                )
            }
        },
        _ => Ok(()),
    }
}

/// Appends a chain of helpers written out, without the final `.collect()`; `base` is the
/// text of the receiver under the chain.
#[verifier::rlimit(40)]
#[verifier::spinoff_prover]
fn push_chain_text(
    out: &mut Vec<char>,
    expr: &Expr,
    ctx: ExprContext,
    iter: IteratorKind,
    base: &Vec<char>,
) -> (r: Result<(), TranspileError>)
    requires
        sexpr_wf(expr_view(*expr)),
        is_helper_call(expr_view(*expr)),
        chain_base(expr_view(*expr), ctx) == Ok::<Seq<char>, GenError>(base@),
    ensures
        wrote(r, chain_text(expr_view(*expr), ctx, iter), old(out)@, final(out)@),
    decreases ctx_rank(ctx), *expr, 1int, 0int,
{
    let ghost ev = expr_view(*expr);
    proof {
        unfold_chain_text(ev, ctx, iter);
        unfold_chain_base(ev, ctx);
    }
    let plain = ExprContext { preserve_strings: false, in_interpolation: ctx.in_interpolation };
    match expr {
        Expr::MethodCall { receiver, method, args } => {
            assert(ev == SExpr::MethodCall(Box::new(expr_view(**receiver)), method@, exprs_view(args@)));
            let kind = helper_of(method.as_str()).unwrap();
            let ghost start = out@;
            if is_helper_expr(receiver) {
                match push_chain_text(out, receiver, ctx, iter, base) {
                    Ok(()) => {},
                    Err(e) => {
                        return Err(e);
                    },
                }
            } else {
                push_all(out, base);
                match iter {
                    IteratorKind::NeedsIter => {
                        push_str(out, ".iter()");
                    },
                    _ => {
                        assert(out@ =~= start + (base@ + Seq::<char>::empty()));
                    },
                }
            }
            let ghost prefix = out@.subrange(start.len() as int, out@.len() as int);
            assert(out@ =~= start + prefix);
            push_str(out, rust_name_of(kind));
            push_str(out, "(");
            let ghost arg_at = out@;
            match push_helper_argument(out, expr, kind, iter, ctx) {
                Ok(()) => {},
                Err(e) => {
                    return Err(e);
                },
            }
            let ghost a = helper_argument(exprs_view(args@), kind, iter, ctx)->Ok_0;
            assert(out@ =~= arg_at + a);
            push_str(out, ")");
            assert(out@ =~= start + (prefix + rust_name(kind) + "("@ + a + ")"@));
            assert(out@ =~= old(out)@ + chain_text(ev, ctx, iter)->Ok_0);
            Ok(())
        },
        _ => Ok(()),
    }
}

/// Appends the argument of a helper call: a closure with its body rewritten, or the
/// expression.
fn push_helper_argument(
    out: &mut Vec<char>,
    expr: &Expr,
    kind: HelperKind,
    iter: IteratorKind,
    ctx: ExprContext,
) -> (r: Result<(), TranspileError>)
    requires
        sexpr_wf(expr_view(*expr)),
        expr_view(*expr) is MethodCall,
    ensures
        wrote(r, helper_argument(expr_view(*expr)->MethodCall_2, kind, iter, ctx), old(out)@, final(out)@),
    decreases ctx_rank(ctx), *expr, 0int, 0int,
{
    let plain = ExprContext { preserve_strings: false, in_interpolation: ctx.in_interpolation };
    match expr {
        Expr::MethodCall { receiver, method, args } => {
            let ghost ev = expr_view(*expr);
            assert(ev == SExpr::MethodCall(Box::new(expr_view(**receiver)), method@, exprs_view(args@)));
            let ghost start = out@;
            proof {
                lemma_exprs_view(args@);
                unfold_helper_argument(exprs_view(args@), kind, iter, ctx);
            }
            if args.len() == 0 {
                assert(out@ =~= start + Seq::<char>::empty());
                return Ok(());
            }
            assert(decreases_to!(*expr => *args));
            assert(decreases_to!(*args => args@));
            assert(decreases_to!(args@ => args@[0]));
            assert(exprs_view(args@)[0] == expr_view(args@[0]));
            assert(sexpr_wf(exprs_view(args@)[0]));
            match &args[0] {
                Expr::Closure { param, body } => {
                    assert(decreases_to!(args@[0] => *body));
                    assert(expr_view(args@[0]) == SExpr::Closure(param@, Box::new(expr_view(**body))));
                    let mut text: Vec<char> = Vec::new();
                    match push_expr(&mut text, body, plain) {
                        Ok(()) => {},
                        Err(e) => {
                            return Err(e);
                        },
                    }
                    let rewritten = rewrite_body(&text, param.as_str(), deref_count_of(kind, iter));
                    push_str(out, "|");
                    push_str(out, param.as_str());
                    push_str(out, "| ");
                    push_all(out, &rewritten);
                    assert(out@ =~= start + helper_argument(exprs_view(args@), kind, iter, ctx)->Ok_0);
                    Ok(())
                },
                _ => push_expr(out, &args[0], plain),
            }
        },
        _ => Ok(()),
    }
}

/// Appends a string literal: as written, `String::from(..)`, or `format!(..)` over its
/// interpolations, each lexed, parsed and generated on its own.
fn push_string_literal(out: &mut Vec<char>, expr: &Expr, ctx: ExprContext) -> (r: Result<(), TranspileError>)
    requires
        sexpr_wf(expr_view(*expr)),
        expr_view(*expr) is Str,
    ensures
        wrote(r, gen_string_literal(expr_view(*expr), ctx), old(out)@, final(out)@),
    decreases ctx_rank(ctx), *expr, 2int, 0int,
{
    let ghost ev = expr_view(*expr);
    proof {
        unfold_gen_string_literal(ev, ctx);
    }
    match expr {
        Expr::String(literal) => {
            assert(ev == SExpr::Str(literal.raw@, literal.span));
            assert(literal_wf(literal.raw@, literal.span));
            if ctx.preserve_strings {
                push_str(out, literal.raw.as_str());
                assert(out@ =~= old(out)@ + gen_string_literal(ev, ctx)->Ok_0);
                return Ok(());
            }
            if ctx.in_interpolation {
                push_str(out, "String::from(");
                push_str(out, literal.raw.as_str());
                push_str(out, ")");
                assert(out@ =~= old(out)@ + gen_string_literal(ev, ctx)->Ok_0);
                return Ok(());
            }
            let raw = chars_of(literal.raw.as_str());
            let n = raw.len();
            let mut content: Vec<char> = Vec::new();
            push_range(&mut content, &raw, 1, n - 1);
            assert(content@ =~= literal_content(literal.raw@));
            let base = literal.span.start + 1;
            let spots = match find_interpolations(&content) {
                Ok(spots) => spots,
                Err(at) => {
                    let message = String::from_str("unclosed string interpolation");
                    return Err(
                        TranspileError::diagnostic(
                            message,
                            Span { start: base + at, end: base + content.len() },
                        ),
                    );
                },
            };
            if spots.len() == 0 {
                push_str(out, "String::from(");
                push_str(out, literal.raw.as_str());
                push_str(out, ")");
                assert(out@ =~= old(out)@ + gen_string_literal(ev, ctx)->Ok_0);
                return Ok(());
            }
            push_interpolated(out, expr, ctx, &content, &spots)
        },
        _ => Ok(()),
    }
}

/// Appends `format!(..)` for a string literal with interpolations at `spots` in its content.
#[verifier::rlimit(100)]
#[verifier::spinoff_prover]
fn push_interpolated(
    out: &mut Vec<char>,
    expr: &Expr,
    ctx: ExprContext,
    content: &Vec<char>,
    spots: &Vec<(usize, usize)>,
) -> (r: Result<(), TranspileError>)
    requires
        expr_view(*expr) matches SExpr::Str(raw, span) && literal_wf(raw, span)
            && content@ == literal_content(raw),
        !ctx.in_interpolation,
        interpolations(content@, 0) == Ok::<Seq<(int, int)>, int>(spots_view(spots@)),
    ensures
        wrote(
            r,
            match embedded_args(
                expr_view(*expr),
                content@,
                spots_view(spots@),
                expr_view(*expr)->Str_1.start + 1,
                ctx,
            ) {
                Ok(args) => Ok(
                    "format!(\""@ + format_text(content@, spots_view(spots@), 0) + "\", "@ + join(
                        args,
                        ", "@,
                    ) + ")"@,
                ),
                Err(err) => Err(err),
            },
            old(out)@,
            final(out)@,
        ),
    decreases ctx_rank(ctx), *expr, 1int, 0int,
{
    let ghost ev = expr_view(*expr);
    let ghost sv = spots_view(spots@);
    let ghost span = ev->Str_1;
    proof {
        lemma_interpolations_ordered(content@, 0);
    }
    assert(spots_ordered(sv, 0, content@.len() as int));
    let base: usize = match expr {
        Expr::String(literal) => literal.span.start + 1,
        _ => 0,
    };
    assert(base == span.start + 1);
    let mut format: Vec<char> = Vec::new();
    let mut args: Vec<Vec<char>> = Vec::new();
    let mut cursor: usize = 0;
    let mut k: usize = 0;
    assert(sv.take(0) =~= Seq::<(int, int)>::empty());
    proof {
        unfold_embedded_args(ev, content@, sv.take(0), base as int, ctx);
        assert(sv.skip(0) =~= sv);
        assert(texts(args@) =~= Seq::<Seq<char>>::empty());
    }
    while k < spots.len()
        invariant
            k <= spots@.len(),
            !ctx.in_interpolation,
            ev == expr_view(*expr),
            span == ev->Str_1,
            base == span.start + 1,
            span.start + content@.len() + 2 <= usize::MAX,
            sv == spots_view(spots@),
            sv.len() == spots@.len(),
            spots_ordered(sv, 0, content@.len() as int),
            cursor <= content@.len(),
            k < spots@.len() ==> cursor <= sv[k as int].0,
            k == 0 ==> cursor == 0,
            k > 0 ==> cursor == sv[k - 1].1,
            format_text(content@, sv, 0) == format@ + format_text(
                content@,
                sv.skip(k as int),
                cursor as int,
            ),
            embedded_args(ev, content@, sv.take(k as int), base as int, ctx) == Ok::<Seq<Seq<char>>, GenError>(texts(args@)),
        decreases spots@.len() - k,
    {
        let (a, b) = spots[k];
        assert(sv[k as int] == (a as int, b as int));
        let ghost rest = sv.skip(k as int);
        assert(rest[0] == sv[k as int]);
        assert(rest.drop_first() =~= sv.skip(k + 1));
        let ghost before_format = format@;
        push_escaped_format(&mut format, content, cursor, a);
        push_str(&mut format, "{}");
        assert(format_text(content@, rest, cursor as int) == escape_format_of(
            content@,
            cursor as int,
            a as int,
        ) + "{}"@ + format_text(content@, sv.skip(k + 1), b as int));
        assert(format@ =~= before_format + escape_format_of(content@, cursor as int, a as int)
            + "{}"@);
        let mut source: Vec<char> = Vec::new();
        push_range(&mut source, content, a + 1, b - 1);
        let offset = base + a + 1;
        proof {
            unfold_gen_embedded(ev, source@, offset as int, ctx);
            assert(sv.take(k + 1).drop_last() =~= sv.take(k as int));
            assert(sv.take(k + 1).last() == sv[k as int]);
            unfold_embedded_args(ev, content@, sv.take(k + 1), base as int, ctx);
            assert(content@.subrange(a + 1, b - 1) =~= source@);
        }
        let arg = match compile_embedded(expr, &source, offset) {
            Ok(arg) => arg,
            Err(e) => {
                proof {
                    lemma_embedded_args_prefix(ev, content@, sv, k + 1, base as int, ctx);
                }
                return Err(e);
            },
        };
        let ghost before_args = args@;
        args.push(arg);
        assert(texts(args@) =~= texts(before_args).push(arg@));
        cursor = b;
        k += 1;
    }
    push_escaped_format(&mut format, content, cursor, content.len());
    assert(sv.skip(k as int) =~= Seq::<(int, int)>::empty());
    assert(sv.take(k as int) =~= sv);
    assert(format@ =~= format_text(content@, sv, 0));
    let ghost start = out@;
    push_str(out, "format!(\"");
    push_all(out, &format);
    push_str(out, "\", ");
    push_join(out, &args, ", ");
    push_str(out, ")");
    assert(out@ =~= start + ("format!(\""@ + format@ + "\", "@ + join(texts(args@), ", "@) + ")"@));
    Ok(())
}

/// An interpolated expression of the string literal `literal`: lexed and parsed on its own,
/// its token positions moved by `offset`, and generated in the interpolation context.
fn compile_embedded(literal: &Expr, source: &Vec<char>, offset: usize) -> (r: Result<Vec<char>, TranspileError>)
    requires
        offset + source@.len() <= usize::MAX,
    ensures
        r is Ok <==> gen_embedded_text(source@, offset as int) is Ok,
        r matches Ok(text) ==> gen_embedded_text(source@, offset as int) == Ok::<Seq<char>, GenError>(text@),
        r matches Err(e) ==> gen_embedded_text(source@, offset as int) matches Err(err) && is_error(e, err),
    decreases 1int, *literal, 0int, 0int,
{
    let tokens = match lex_chars(source) {
        Ok(tokens) => tokens,
        Err(e) => {
            return Err(e);
        },
    };
    let shifted = shift_token_spans(&tokens, offset, Ghost(source@.len() as int));
    let parsed = match parse_expression(&shifted) {
        Ok(parsed) => parsed,
        Err(e) => {
            return Err(e);
        },
    };
    let mut text: Vec<char> = Vec::new();
    match push_expr(&mut text, &parsed, ExprContext { preserve_strings: false, in_interpolation: true }) {
        Ok(()) => Ok(text),
        Err(e) => Err(e),
    }
}

/// What `compile_embedded` gives: the text of the expression lexed from `source` and parsed
/// with positions moved by `offset`.
pub open spec fn gen_embedded_text(source: Seq<char>, offset: int) -> Result<Seq<char>, GenError> {
    match lex_spec(source) {
        Err(at) => Err(lex_error(source, at)),
        Ok(tokens) => match parse_whole_expression(shift_tokens(tokens, offset)) {
            Err(at) => Err(parse_error_of(shift_tokens(tokens, offset), at)),
            Ok(e) => gen_expr(e, ExprContext { preserve_strings: false, in_interpolation: true }),
        },
    }
}

/// The braces-doubled text of `s[from..to]`.
pub open spec fn escape_format_of(s: Seq<char>, from: int, to: int) -> Seq<char> {
    super::spec::escape_format(s.subrange(from, to))
}

/// The Rust text of an expression.
pub fn generate_expr(expr: &Expr, ctx: ExprContext) -> (r: Result<String, TranspileError>)
    requires
        sexpr_wf(expr_view(*expr)),
    ensures
        r is Ok <==> gen_expr(expr_view(*expr), ctx) is Ok,
        r matches Ok(text) ==> gen_expr(expr_view(*expr), ctx) == Ok::<Seq<char>, GenError>(text@),
        r matches Err(e) ==> gen_expr(expr_view(*expr), ctx) matches Err(err) && is_error(e, err),
{
    let mut out: Vec<char> = Vec::new();
    match push_expr(&mut out, expr, ctx) {
        Ok(()) => {
            assert(out@ =~= gen_expr(expr_view(*expr), ctx)->Ok_0);
            Ok(string_of(&out))
        },
        Err(e) => Err(e),
    }
}

} // verus!
