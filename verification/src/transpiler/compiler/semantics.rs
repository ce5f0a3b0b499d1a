//! The checks between parsing and generation: every construct of the syntax tree is one
//! the generator knows, so each check passes and the module is handed on unchanged.
use crate::transpiler::compiler::ast::{
    Analysis, BinaryOp, Block, Expr, Function, Item, MapEntry, Module, Stmt, TypeExpr, TypeSegment,
    UnaryOp,
};
use crate::transpiler::error::TranspileError;
use vstd::prelude::*;

verus! {

/// Checks a module and wraps it for the generator.
pub fn analyze(module: Module) -> (r: Result<Analysis, TranspileError>)
    ensures
        r matches Ok(analysis) && analysis.module == module,
{
    let mut i: usize = 0;
    while i < module.items.len()
        invariant
            i <= module.items@.len(),
        decreases module.items@.len() - i,
    {
        let checked = validate_item(&module.items[i]);
        i += 1;
    }
    Ok(Analysis { module })
}

fn validate_item(item: &Item) -> (r: Result<(), TranspileError>)
    ensures
        r is Ok,
{
    match item {
        Item::Function(function) => validate_function(function),
        Item::Static(item) => {
            let checked = validate_type(&item.ty);
            validate_expr(&item.value)
        },
    }
}

fn validate_function(function: &Function) -> (r: Result<(), TranspileError>)
    ensures
        r is Ok,
{
    let mut i: usize = 0;
    while i < function.params.len()
        invariant
            i <= function.params@.len(),
        decreases function.params@.len() - i,
    {
        let checked = validate_type(&function.params[i].ty);
        i += 1;
    }
    if let Some(return_type) = &function.return_type {
        let checked = validate_type(return_type);
    }
    validate_block(&function.body)
}

fn validate_block(block: &Block) -> (r: Result<(), TranspileError>)
    ensures
        r is Ok,
{
    let mut i: usize = 0;
    while i < block.statements.len()
        invariant
            i <= block.statements@.len(),
        decreases block.statements@.len() - i,
    {
        match &block.statements[i] {
            Stmt::Let(l) => {
                if let Some(ty) = &l.ty {
                    let checked = validate_type(ty);
                }
                let checked = validate_expr(&l.value);
            },
            Stmt::IndexAssign(assign) => {
                let checked = validate_expr(&assign.target);
                let checked = validate_expr(&assign.index);
                let checked = validate_expr(&assign.value);
            },
            Stmt::Expr(expr) => {
                let checked = validate_expr(expr);
            },
        }
        i += 1;
    }
    if let Some(tail) = &block.tail {
        let checked = validate_expr(tail);
    }
    Ok(())
}

fn validate_expr(expr: &Expr) -> (r: Result<(), TranspileError>)
    ensures
        r is Ok,
    decreases *expr,
{
    match expr {
        Expr::Path(_) | Expr::String(_) | Expr::Number(_) | Expr::Char(_) => Ok(()),
        Expr::Array(items) => validate_exprs(items),
        Expr::MapLiteral(entries) => validate_entries(entries),
        Expr::Call { callee, args } => {
            let checked = validate_expr(callee);
            validate_exprs(args)
        },
        Expr::MacroCall { args, .. } => validate_exprs(args),
        Expr::MethodCall { receiver, args, .. } => {
            let checked = validate_expr(receiver);
            validate_exprs(args)
        },
        Expr::Field { receiver, .. } => validate_expr(receiver),
        Expr::Index { receiver, index } => {
            let checked = validate_expr(receiver);
            validate_expr(index)
        },
        Expr::Unary { op, expr: inner } => {
            let known = match op {
                UnaryOp::Ref | UnaryOp::Not | UnaryOp::Neg => true,
            };
            validate_expr(inner)
        },
        Expr::Binary { lhs, op, rhs } => {
            let known = match op {
                BinaryOp::Mul | BinaryOp::Div | BinaryOp::Rem | BinaryOp::Add | BinaryOp::Sub
                | BinaryOp::Gt | BinaryOp::Lt | BinaryOp::Ge | BinaryOp::Le | BinaryOp::Eq
                | BinaryOp::NotEq | BinaryOp::And | BinaryOp::Or => true,
            };
            let checked = validate_expr(lhs);
            validate_expr(rhs)
        },
        Expr::Closure { body, .. } => validate_expr(body),
        Expr::Paren(inner) | Expr::Return(inner) => validate_expr(inner),
    }
}

fn validate_exprs(items: &Vec<Expr>) -> (r: Result<(), TranspileError>)
    ensures
        r is Ok,
    decreases *items,
{
    let mut i: usize = 0;
    assert(decreases_to!(*items => items@));
    while i < items.len()
        invariant
            i <= items@.len(),
            decreases_to!(*items => items@),
        decreases items@.len() - i,
    {
        assert(decreases_to!(items@ => items@[i as int]));
        let checked = validate_expr(&items[i]);
        i += 1;
    }
    Ok(())
}

fn validate_entries(entries: &Vec<MapEntry>) -> (r: Result<(), TranspileError>)
    ensures
        r is Ok,
    decreases *entries,
{
    let mut i: usize = 0;
    assert(decreases_to!(*entries => entries@));
    while i < entries.len()
        invariant
            i <= entries@.len(),
            decreases_to!(*entries => entries@),
        decreases entries@.len() - i,
    {
        assert(decreases_to!(entries@ => entries@[i as int]));
        assert(decreases_to!(entries@[i as int] => entries@[i as int].key));
        assert(decreases_to!(entries@[i as int] => entries@[i as int].value));
        let checked = validate_expr(&entries[i].key);
        let checked = validate_expr(&entries[i].value);
        i += 1;
    }
    Ok(())
}

fn validate_type(ty: &TypeExpr) -> (r: Result<(), TranspileError>)
    ensures
        r is Ok,
    decreases *ty,
{
    match ty {
        TypeExpr::Path(path) => {
            let mut i: usize = 0;
            assert(decreases_to!(*ty => path.segments@)) by {
                assert(decreases_to!(*ty => *path));
                assert(decreases_to!(*path => path.segments));
                assert(decreases_to!(path.segments => path.segments@));
            }
            while i < path.segments.len()
                invariant
                    i <= path.segments@.len(),
                    decreases_to!(*ty => path.segments@),
                decreases path.segments@.len() - i,
            {
                assert(decreases_to!(path.segments@ => path.segments@[i as int]));
                let checked = validate_type_segment(&path.segments[i]);
                i += 1;
            }
            Ok(())
        },
        TypeExpr::Reference { inner, .. } => validate_type(inner),
    }
}

fn validate_type_segment(segment: &TypeSegment) -> (r: Result<(), TranspileError>)
    ensures
        r is Ok,
    decreases *segment,
{
    let mut i: usize = 0;
    assert(decreases_to!(*segment => segment.generics@)) by {
        assert(decreases_to!(*segment => segment.generics));
        assert(decreases_to!(segment.generics => segment.generics@));
    }
    while i < segment.generics.len()
        invariant
            i <= segment.generics@.len(),
            decreases_to!(*segment => segment.generics@),
        decreases segment.generics@.len() - i,
    {
        assert(decreases_to!(segment.generics@ => segment.generics@[i as int]));
        let checked = validate_type(&segment.generics[i]);
        i += 1;
    }
    Ok(())
}

} // verus!
