//! Rust text of statements, blocks, functions, statics and whole modules.
use crate::text::{chars_eq, chars_of, push_all, push_range, push_str, str_eq, string_of};
use crate::transpiler::compiler::ast::{
    Analysis, Block, Expr, Function, Item, Module, SExpr, SItem, SParam, SStmt, StaticItem, Stmt,
    TypeExpr, block_view, expr_view, item_view, items_view, lemma_items_view, lemma_params_view,
    lemma_segments_view, lemma_stmts_view, module_view, opt_type_view, params_view, sblock_wf,
    sexpr_wf, sitem_wf, sitems_wf, sstmt_wf, stmt_view, stmts_view, strings_view, type_view,
};
use crate::transpiler::error::TranspileError;
use super::expr::{push_expr, wrote};
use super::spec::{
    ExprContext, GenError, gen_block, is_error, gen_expr, gen_item, gen_items, gen_let_value, gen_module, gen_params,
    gen_signature, gen_stmt, gen_stmts, gen_tail, gen_type, has_interpolation, is_owned_string_type,
    is_result_type, join, keep_strings_ctx, lemma_join_push, literal_content, mut_text,
    should_wrap_result_expr,
};
use super::text::{ends_with_str, find_interpolations, starts_with_str};
use super::types::push_type;
use vstd::prelude::*;

verus! {

/// `string` or `String`, alone.
pub fn is_owned_string(ty: &TypeExpr) -> (b: bool)
    ensures
        b == is_owned_string_type(type_view(*ty)),
{
    match ty {
        TypeExpr::Path(path) => {
            proof {
                lemma_segments_view(path.segments@);
            }
            path.segments.len() == 1 && (str_eq(path.segments[0].name.as_str(), "string")
                || str_eq(path.segments[0].name.as_str(), "String"))
        },
        _ => false,
    }
}

/// `Result`, with or without generics.
pub fn is_result(ty: &TypeExpr) -> (b: bool)
    ensures
        b == is_result_type(type_view(*ty)),
{
    match ty {
        TypeExpr::Path(path) => {
            proof {
                lemma_segments_view(path.segments@);
            }
            path.segments.len() == 1 && str_eq(path.segments[0].name.as_str(), "Result")
        },
        _ => false,
    }
}

/// Whether a tail expression is wrapped in `Ok(..)` in a function returning `Result`.
pub fn should_wrap_result(e: &Expr) -> (b: bool)
    ensures
        b == should_wrap_result_expr(expr_view(*e)),
{
    match e {
        Expr::Return(inner) => {
            assert(expr_view(*e) == SExpr::Return(Box::new(expr_view(**inner))));
            false
        },
        Expr::Call { callee, args } => match &**callee {
            Expr::Path(path) => {
                let ghost segs = strings_view(path.segments@);
                assert(expr_view(**callee) == SExpr::Path(segs));
                assert(expr_view(*e) == SExpr::Call(Box::new(expr_view(**callee)), crate::transpiler::compiler::ast::exprs_view(args@)));
                assert(segs.len() == path.segments@.len());
                if path.segments.len() == 1 {
                    assert(segs[0] == path.segments@[0]@);
                    !(str_eq(path.segments[0].as_str(), "Ok") || str_eq(
                        path.segments[0].as_str(),
                        "Err",
                    ))
                } else {
                    true
                }
            },
            _ => true,
        },
        _ => true,
    }
}

/// Whether a string literal holds an interpolation.
pub fn literal_has_interpolation(raw: &str) -> (b: bool)
    requires
        raw@.len() >= 2,
    ensures
        b == has_interpolation(raw@),
{
    let chars = chars_of(raw);
    let mut content: Vec<char> = Vec::new();
    push_range(&mut content, &chars, 1, chars.len() - 1);
    assert(content@ =~= literal_content(raw@));
    match find_interpolations(&content) {
        Ok(spots) => spots.len() > 0,
        Err(_) => false,
    }
}

/// Appends the value of a `let` with a type annotation.
fn push_let_value(out: &mut Vec<char>, ty: &TypeExpr, value: &Expr) -> (r: Result<(), TranspileError>)
    requires
        sexpr_wf(expr_view(*value)),
    ensures
        wrote(r, gen_let_value(type_view(*ty), expr_view(*value)), old(out)@, final(out)@),
{
    if !is_owned_string(ty) {
        return push_expr(out, value, ExprContext { preserve_strings: false, in_interpolation: false });
    }
    let mut g: Vec<char> = Vec::new();
    match push_expr(&mut g, value, ExprContext { preserve_strings: true, in_interpolation: false }) {
        Ok(()) => {},
        Err(e) => {
            return Err(e);
        },
    }
    assert(g@ =~= gen_expr(expr_view(*value), keep_strings_ctx())->Ok_0);
    let new_string = chars_of("String::new()");
    if starts_with_str(&g, "String::from(") || starts_with_str(&g, "format!(") || ends_with_str(
        &g,
        ".to_string()",
    ) || chars_eq(&g, &new_string) {
        push_all(out, &g);
    } else {
        let ghost start = out@;
        push_str(out, "String::from(");
        push_all(out, &g);
        push_str(out, ")");
        assert(out@ =~= start + ("String::from("@ + g@ + ")"@));
    }
    Ok(())
}

/// Appends a statement.
fn push_stmt(out: &mut Vec<char>, stmt: &Stmt) -> (r: Result<(), TranspileError>)
    requires
        sstmt_wf(stmt_view(*stmt)),
    ensures
        wrote(r, gen_stmt(stmt_view(*stmt)), old(out)@, final(out)@),
{
    let plain = ExprContext { preserve_strings: false, in_interpolation: false };
    let keep = ExprContext { preserve_strings: true, in_interpolation: false };
    let ghost start = out@;
    match stmt {
        Stmt::Let(l) => {
            push_str(out, "let ");
            if l.mutable {
                push_str(out, "mut ");
            }
            push_str(out, l.name.as_str());
            let ghost head = out@;
            assert(head =~= start + ("let "@ + mut_text(l.mutable) + l.name@));
            match &l.ty {
                Some(ty) => {
                    push_str(out, ": ");
                    push_type(out, ty);
                    push_str(out, " = ");
                    let ghost mid = out@;
                    match push_let_value(out, ty, &l.value) {
                        Ok(()) => {},
                        Err(e) => {
                            return Err(e);
                        },
                    }
                    push_str(out, ";");
                    assert(out@ =~= start + gen_stmt(stmt_view(*stmt))->Ok_0);
                },
                None => {
                    push_str(out, " = ");
                    match push_expr(out, &l.value, plain) {
                        Ok(()) => {},
                        Err(e) => {
                            return Err(e);
                        },
                    }
                    push_str(out, ";");
                    assert(out@ =~= start + gen_stmt(stmt_view(*stmt))->Ok_0);
                },
            }
            Ok(())
        },
        Stmt::IndexAssign(a) => {
            match push_expr(out, &a.target, plain) {
                Ok(()) => {},
                Err(e) => {
                    return Err(e);
                },
            }
            push_str(out, ".insert(");
            match push_expr(out, &a.index, keep) {
                Ok(()) => {},
                Err(e) => {
                    return Err(e);
                },
            }
            push_str(out, ", ");
            match push_expr(out, &a.value, plain) {
                Ok(()) => {},
                Err(e) => {
                    return Err(e);
                },
            }
            push_str(out, ");");
            assert(out@ =~= start + gen_stmt(stmt_view(*stmt))->Ok_0);
            Ok(())
        },
        Stmt::Expr(e) => {
            match push_expr(out, e, plain) {
                Ok(()) => {},
                Err(e) => {
                    return Err(e);
                },
            }
            push_str(out, ";");
            assert(out@ =~= start + gen_stmt(stmt_view(*stmt))->Ok_0);
            Ok(())
        },
    }
}

/// A failing statement makes the whole list fail with its error.
proof fn lemma_gen_stmts_prefix(s: Seq<SStmt>, j: int)
    requires
        0 <= j <= s.len(),
        gen_stmts(s.take(j)) is Err,
    ensures
        gen_stmts(s) == gen_stmts(s.take(j)),
    decreases s.len(),
{
    if j < s.len() {
        assert(s.drop_last().take(j) =~= s.take(j));
        lemma_gen_stmts_prefix(s.drop_last(), j);
    } else {
        assert(s.take(j) =~= s);
    }
}

/// A failing item makes the whole list fail with its error.
proof fn lemma_gen_items_prefix(s: Seq<SItem>, j: int)
    requires
        0 <= j <= s.len(),
        gen_items(s.take(j)) is Err,
    ensures
        gen_items(s) == gen_items(s.take(j)),
    decreases s.len(),
{
    if j < s.len() {
        assert(s.drop_last().take(j) =~= s.take(j));
        lemma_gen_items_prefix(s.drop_last(), j);
    } else {
        assert(s.take(j) =~= s);
    }
}

/// Appends a block; its tail is wrapped in `Ok(..)` when the function returns `Result`.
fn push_block(out: &mut Vec<char>, block: &Block, return_type: &Option<TypeExpr>) -> (r: Result<(), TranspileError>)
    requires
        sblock_wf(block_view(*block)),
    ensures
        wrote(r, gen_block(block_view(*block), opt_type_view(*return_type)), old(out)@, final(out)@),
{
    let ghost start = out@;
    let ghost sv = stmts_view(block.statements@);
    proof {
        lemma_stmts_view(block.statements@);
        assert(sv.take(0) =~= Seq::<SStmt>::empty());
    }
    push_str(out, "{ ");
    let ghost body_start = out@;
    let mut i: usize = 0;
    while i < block.statements.len()
        invariant
            i <= block.statements@.len(),
            sv == stmts_view(block.statements@),
            sv.len() == block.statements@.len(),
            sblock_wf(block_view(*block)),
            forall|k: int| 0 <= k < sv.len() ==> #[trigger] sv[k] == stmt_view(block.statements@[k]),
            gen_stmts(sv.take(i as int)) is Ok,
            gen_stmts(sv.take(i as int))->Ok_0.len() == i,
            out@ == body_start + join(gen_stmts(sv.take(i as int))->Ok_0, " "@),
        decreases block.statements@.len() - i,
    {
        let ghost parts = gen_stmts(sv.take(i as int))->Ok_0;
        assert(sv.take(i + 1).drop_last() =~= sv.take(i as int));
        assert(sstmt_wf(sv[i as int]));
        if i > 0 {
            push_str(out, " ");
        }
        match push_stmt(out, &block.statements[i]) {
            Ok(()) => {},
            Err(e) => {
                proof {
                    lemma_gen_stmts_prefix(sv, i + 1);
                }
                return Err(e);
            },
        }
        proof {
            let g = gen_stmt(sv[i as int])->Ok_0;
            lemma_join_push(parts, g, " "@);
            assert(out@ =~= body_start + join(parts.push(g), " "@));
        }
        i += 1;
    }
    assert(sv.take(sv.len() as int) =~= sv);
    let ghost parts = gen_stmts(sv)->Ok_0;
    match &block.tail {
        Some(tail) => {
            if block.statements.len() > 0 {
                push_str(out, " ");
            }
            let ghost tail_at = out@;
            let plain = ExprContext { preserve_strings: false, in_interpolation: false };
            let wrap = match return_type {
                Some(ty) => is_result(ty) && should_wrap_result(tail),
                None => false,
            };
            if wrap {
                push_str(out, "Ok(");
            }
            match push_expr(out, tail, plain) {
                Ok(()) => {},
                Err(e) => {
                    return Err(e);
                },
            }
            if wrap {
                push_str(out, ")");
            }
            proof {
                let t = gen_tail(expr_view(*tail), opt_type_view(*return_type))->Ok_0;
                assert(out@ =~= tail_at + t);
                lemma_join_push(parts, t, " "@);
            }
        },
        None => {},
    }
    push_str(out, " }");
    assert(out@ =~= start + gen_block(block_view(*block), opt_type_view(*return_type))->Ok_0);
    Ok(())
}

/// Appends the signature of a function.
fn push_signature(out: &mut Vec<char>, function: &Function)
    ensures
        final(out)@ == old(out)@ + gen_signature(
            function.name@,
            params_view(function.params@),
            opt_type_view(function.return_type),
        ),
{
    let ghost start = out@;
    let ghost pv = params_view(function.params@);
    proof {
        lemma_params_view(function.params@);
        assert(pv.take(0) =~= Seq::<SParam>::empty());
    }
    push_str(out, "fn ");
    push_str(out, function.name.as_str());
    push_str(out, "(");
    let ghost params_at = out@;
    let mut i: usize = 0;
    while i < function.params.len()
        invariant
            i <= function.params@.len(),
            pv == params_view(function.params@),
            pv.len() == function.params@.len(),
            forall|k: int|
                0 <= k < pv.len() ==> #[trigger] pv[k] == (SParam {
                    name: function.params@[k].name@,
                    ty: type_view(function.params@[k].ty),
                }),
            gen_params(pv.take(i as int)).len() == i,
            out@ == params_at + join(gen_params(pv.take(i as int)), ", "@),
        decreases function.params@.len() - i,
    {
        let ghost parts = gen_params(pv.take(i as int));
        assert(pv.take(i + 1).drop_last() =~= pv.take(i as int));
        if i > 0 {
            push_str(out, ", ");
        }
        let ghost part_at = out@;
        push_str(out, function.params[i].name.as_str());
        push_str(out, ": ");
        push_type(out, &function.params[i].ty);
        proof {
            let g = pv[i as int].name + ": "@ + gen_type(pv[i as int].ty);
            assert(out@ =~= part_at + g);
            lemma_join_push(parts, g, ", "@);
            assert(out@ =~= params_at + join(parts.push(g), ", "@));
        }
        i += 1;
    }
    assert(pv.take(pv.len() as int) =~= pv);
    push_str(out, ")");
    match &function.return_type {
        Some(ty) => {
            push_str(out, " -> ");
            push_type(out, ty);
        },
        None => {},
    }
    assert(out@ =~= start + gen_signature(
        function.name@,
        pv,
        opt_type_view(function.return_type),
    ));
}

/// Appends an item.
fn push_item(out: &mut Vec<char>, item: &Item) -> (r: Result<(), TranspileError>)
    requires
        sitem_wf(item_view(*item)),
    ensures
        wrote(r, gen_item(item_view(*item)), old(out)@, final(out)@),
{
    let ghost start = out@;
    match item {
        Item::Function(function) => {
            push_signature(out, function);
            push_str(out, " ");
            match push_block(out, &function.body, &function.return_type) {
                Ok(()) => {},
                Err(e) => {
                    return Err(e);
                },
            }
            assert(out@ =~= start + gen_item(item_view(*item))->Ok_0);
            Ok(())
        },
        Item::Static(s) => push_static(out, s),
    }
}

/// Appends a static item: an owned string initialised by a plain literal becomes a `&str`.
fn push_static(out: &mut Vec<char>, item: &StaticItem) -> (r: Result<(), TranspileError>)
    requires
        sexpr_wf(expr_view(item.value)),
    ensures
        wrote(
            r,
            gen_item(SItem::Static(item.name@, type_view(item.ty), expr_view(item.value))),
            old(out)@,
            final(out)@,
        ),
{
    let ghost start = out@;
    let ghost g = gen_item(SItem::Static(item.name@, type_view(item.ty), expr_view(item.value)));
    if is_owned_string(&item.ty) {
        match &item.value {
            Expr::String(literal) => {
                assert(expr_view(item.value) == SExpr::Str(literal.raw@, literal.span));
                if !literal_has_interpolation(literal.raw.as_str()) {
                    push_str(out, "static ");
                    push_str(out, item.name.as_str());
                    push_str(out, ": &str = ");
                    push_str(out, literal.raw.as_str());
                    push_str(out, ";");
                    assert(out@ =~= start + g->Ok_0);
                    return Ok(());
                }
            },
            _ => {},
        }
    }
    push_str(out, "static ");
    push_str(out, item.name.as_str());
    push_str(out, ": ");
    push_type(out, &item.ty);
    push_str(out, " = ");
    match push_expr(out, &item.value, ExprContext { preserve_strings: false, in_interpolation: false }) {
        Ok(()) => {},
        Err(e) => {
            return Err(e);
        },
    }
    push_str(out, ";");
    assert(out@ =~= start + g->Ok_0);
    Ok(())
}

/// The Rust text of a module: its items, one per line.
pub fn generate_module(module: &Module) -> (r: Result<String, TranspileError>)
    requires
        sitems_wf(module_view(*module)),
    ensures
        r is Ok <==> gen_module(module_view(*module)) is Ok,
        r matches Ok(text) ==> gen_module(module_view(*module)) == Ok::<Seq<char>, GenError>(text@),
        r matches Err(e) ==> gen_module(module_view(*module)) matches Err(err) && is_error(e, err),
{
    let ghost iv = items_view(module.items@);
    proof {
        lemma_items_view(module.items@);
        assert(iv.take(0) =~= Seq::<SItem>::empty());
    }
    let mut out: Vec<char> = Vec::new();
    let mut i: usize = 0;
    while i < module.items.len()
        invariant
            i <= module.items@.len(),
            iv == items_view(module.items@),
            iv.len() == module.items@.len(),
            sitems_wf(iv),
            forall|k: int| 0 <= k < iv.len() ==> #[trigger] iv[k] == item_view(module.items@[k]),
            gen_items(iv.take(i as int)) is Ok,
            gen_items(iv.take(i as int))->Ok_0.len() == i,
            out@ == join(gen_items(iv.take(i as int))->Ok_0, "\n"@),
        decreases module.items@.len() - i,
    {
        let ghost parts = gen_items(iv.take(i as int))->Ok_0;
        assert(iv.take(i + 1).drop_last() =~= iv.take(i as int));
        assert(sitem_wf(iv[i as int]));
        if i > 0 {
            push_str(&mut out, "\n");
        }
        match push_item(&mut out, &module.items[i]) {
            Ok(()) => {},
            Err(e) => {
                proof {
                    lemma_gen_items_prefix(iv, i + 1);
                }
                return Err(e);
            },
        }
        proof {
            let g = gen_item(iv[i as int])->Ok_0;
            lemma_join_push(parts, g, "\n"@);
            assert(out@ =~= join(parts.push(g), "\n"@));
        }
        i += 1;
    }
    assert(iv.take(iv.len() as int) =~= iv);
    Ok(string_of(&out))
}

/// Generates the Rust text of an analysed module.
pub fn generate(analysis: &Analysis) -> (r: Result<String, TranspileError>)
    requires
        sitems_wf(module_view(analysis.module)),
    ensures
        r is Ok <==> gen_module(module_view(analysis.module)) is Ok,
        r matches Ok(text) ==> gen_module(module_view(analysis.module)) == Ok::<Seq<char>, GenError>(text@),
        r matches Err(e) ==> gen_module(module_view(analysis.module)) matches Err(err) && is_error(e, err),
{
    generate_module(&analysis.module)
}

} // verus!
