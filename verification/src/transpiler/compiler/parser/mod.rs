//! The parser: tokens to a syntax tree.
pub mod expr;
pub mod expr_spec;
pub mod items;
pub mod items_spec;
pub mod path;
pub mod tokens;
pub mod types;

use crate::transpiler::compiler::ast::{
    Expr, Module, SExpr, SItem, expr_view, items_view, sexpr_wf, sitems_wf,
};
use crate::transpiler::compiler::lexer::{Token, TokenView};
use crate::transpiler::error::{Span, TranspileError};
use expr::expression_parser;
use items::items_parser;
use items_spec::{parse_module, parse_whole_expression};
use tokens::{tokens_wf, tv};
use vstd::prelude::*;

verus! {

/// The message of a parse error at token position `at`.
pub open spec fn parse_error_message(t: Seq<TokenView>, at: int) -> Seq<char> {
    if 0 <= at < t.len() {
        "unexpected token `"@ + t[at].text + "`"@
    } else {
        "unexpected end of input"@
    }
}

/// The span of a parse error at token position `at`: that token, or the empty span at the
/// start of the text when there is no token there.
pub open spec fn parse_error_span(t: Seq<TokenView>, at: int) -> Span {
    if 0 <= at < t.len() {
        Span { start: t[at].start as usize, end: t[at].end as usize }
    } else {
        Span { start: 0, end: 0 }
    }
}

pub open spec fn is_parse_error(error: TranspileError, t: Seq<TokenView>, at: int) -> bool {
    error matches TranspileError::Diagnostic { message, span } && message@ == parse_error_message(
        t,
        at,
    ) && span == parse_error_span(t, at)
}

fn parse_error(t: &[Token], at: usize) -> (error: TranspileError)
    ensures
        is_parse_error(error, tv(t), at as int),
{
    if at < t.len() {
        let mut message = String::from_str("unexpected token `");
        message.append(t[at].text.as_str());
        message.append("`");
        TranspileError::Diagnostic { message, span: t[at].span }
    } else {
        TranspileError::Diagnostic {
            message: String::from_str("unexpected end of input"),
            span: Span { start: 0, end: 0 },
        }
    }
}

/// Parses a whole token sequence into a module: as many items as follow each other, which
/// must use up every token; otherwise the error points at the first token that starts no
/// item.
pub fn parse(tokens: &[Token]) -> (result: Result<Module, TranspileError>)
    requires
        tokens_wf(tv(tokens)),
    ensures
        result matches Ok(module) ==> sitems_wf(items_view(module.items@)),
        result is Ok <==> parse_module(tv(tokens)) is Ok,
        result matches Ok(module) ==> parse_module(tv(tokens)) == Ok::<Seq<SItem>, int>(
            items_view(module.items@),
        ),
        result matches Err(error) ==> parse_module(tv(tokens)) matches Err(at) && is_parse_error(
            error,
            tv(tokens),
            at,
        ),
{
    let (items, end) = items_parser(tokens);
    if end == tokens.len() {
        Ok(Module { items })
    } else {
        Err(parse_error(tokens, end))
    }
}

/// Parses a token sequence that must be exactly one expression.
pub fn parse_expression(tokens: &[Token]) -> (result: Result<Expr, TranspileError>)
    requires
        tokens_wf(tv(tokens)),
    ensures
        result matches Ok(e) ==> sexpr_wf(expr_view(e)),
        result is Ok <==> parse_whole_expression(tv(tokens)) is Ok,
        result matches Ok(e) ==> parse_whole_expression(tv(tokens)) == Ok::<SExpr, int>(
            expr_view(e),
        ),
        result matches Err(error) ==> parse_whole_expression(tv(tokens)) matches Err(at)
            && is_parse_error(error, tv(tokens), at),
{
    match expression_parser(tokens, 0) {
        Some((e, end)) => {
            if end == tokens.len() {
                Ok(e)
            } else {
                Err(parse_error(tokens, end))
            }
        },
        None => Err(parse_error(tokens, 0)),
    }
}

} // verus!
