//! What the code generator writes for each node of the syntax tree.
use crate::text::{is_ident_continue, is_ident_start};
use crate::transpiler::compiler::ast::{
    BinaryOp, SBlock, SEntry, SExpr, SItem, SParam, SSegment, SStmt, SType, UnaryOp,
};
use crate::transpiler::compiler::lexer::{TokenView, lex_spec, unexpected_message};
use crate::transpiler::compiler::parser::{parse_error_message, parse_error_span};
use crate::transpiler::error::{Span, TranspileError};
use crate::transpiler::compiler::parser::items_spec::parse_whole_expression;
use crate::transpiler::source::iterators::closure_body;

use vstd::prelude::*;

verus! {

/// How an expression is generated: `preserve_strings` keeps string literals as written
/// (where Rust expects a `&str`); `in_interpolation` marks an expression written inside a
/// string interpolation.
#[derive(Clone, Copy, Debug, PartialEq, Eq, Structural)]
pub struct ExprContext {
    pub preserve_strings: bool,
    pub in_interpolation: bool,
}

pub open spec fn default_ctx(ctx: ExprContext) -> ExprContext {
    ExprContext { preserve_strings: false, in_interpolation: ctx.in_interpolation }
}

pub open spec fn preserve_ctx(ctx: ExprContext) -> ExprContext {
    ExprContext { preserve_strings: true, in_interpolation: ctx.in_interpolation }
}

pub open spec fn ctx_rank(ctx: ExprContext) -> int {
    if ctx.in_interpolation {
        0
    } else {
        1
    }
}

/// The iterator helpers of the language.
#[derive(Clone, Copy, Debug, PartialEq, Eq, Structural)]
pub enum HelperKind {
    MapHelper,
    Filter,
    Find,
    FindIndex,
}

/// How the receiver of a helper chain iterates.
#[derive(Clone, Copy, Debug, PartialEq, Eq, Structural)]
pub enum IteratorKind {
    NeedsIter,
    Iter,
    IntoIter,
}

pub open spec fn helper_kind(name: Seq<char>) -> Option<HelperKind> {
    if name == "map"@ {
        Some(HelperKind::MapHelper)
    } else if name == "filter"@ {
        Some(HelperKind::Filter)
    } else if name == "find"@ {
        Some(HelperKind::Find)
    } else if name == "findIndex"@ {
        Some(HelperKind::FindIndex)
    } else {
        None
    }
}

pub open spec fn rust_name(kind: HelperKind) -> Seq<char> {
    match kind {
        HelperKind::MapHelper => ".map"@,
        HelperKind::Filter => ".filter"@,
        HelperKind::Find => ".find"@,
        HelperKind::FindIndex => ".position"@,
    }
}

/// How many dereferences a closure parameter of the helper needs.
pub open spec fn deref_count(kind: HelperKind, iter: IteratorKind) -> nat {
    (if iter == IteratorKind::IntoIter {
        0nat
    } else {
        1nat
    }) + (if kind == HelperKind::Filter || kind == HelperKind::Find {
        1nat
    } else {
        0nat
    })
}

pub open spec fn ends_with(s: Seq<char>, suffix: Seq<char>) -> bool {
    suffix.len() <= s.len() && s.subrange(s.len() - suffix.len(), s.len() as int) == suffix
}

pub open spec fn starts_with(s: Seq<char>, prefix: Seq<char>) -> bool {
    prefix.len() <= s.len() && s.subrange(0, prefix.len() as int) == prefix
}

pub open spec fn iterator_kind(receiver: Seq<char>) -> IteratorKind {
    if ends_with(receiver, ".into_iter()"@) {
        IteratorKind::IntoIter
    } else if ends_with(receiver, ".iter()"@) || ends_with(receiver, ".iter_mut()"@) {
        IteratorKind::Iter
    } else {
        IteratorKind::NeedsIter
    }
}

/// A receiver that already ends in `.iter()` or `.iter_mut()` iterates by reference and one
/// that ends in `.into_iter()` iterates by value, so neither gets `.iter()` inserted; exactly
/// the receivers that end in none of the three get `.iter()` inserted.
pub proof fn lemma_iterator_kind_suffix(receiver: Seq<char>)
    ensures
        ends_with(receiver, ".iter()"@) ==> iterator_kind(receiver) == IteratorKind::Iter,
        ends_with(receiver, ".iter_mut()"@) ==> iterator_kind(receiver) == IteratorKind::Iter,
        ends_with(receiver, ".into_iter()"@) ==> iterator_kind(receiver) == IteratorKind::IntoIter,
        iterator_kind(receiver) == IteratorKind::NeedsIter <==> !(ends_with(receiver, ".iter()"@)
            || ends_with(receiver, ".iter_mut()"@) || ends_with(receiver, ".into_iter()"@)),
{
    reveal_strlit(".iter()");
    reveal_strlit(".iter_mut()");
    reveal_strlit(".into_iter()");
    let n = receiver.len() as int;
    if ends_with(receiver, ".into_iter()"@) {
        let tail = receiver.subrange(n - 12, n);
        assert(tail =~= ".into_iter()"@);
        assert(receiver[n - 7] == tail[5]);
        assert(receiver[n - 3] == tail[9]);
        if ends_with(receiver, ".iter()"@) {
            assert(receiver[n - 7] == receiver.subrange(n - 7, n)[0]);
        }
        if ends_with(receiver, ".iter_mut()"@) {
            assert(receiver[n - 3] == receiver.subrange(n - 11, n)[8]);
        }
    }
}

/// A non-empty word of `_`, ASCII letters and digits that does not start with a digit.
pub open spec fn is_identifier_like(s: Seq<char>) -> bool {
    s.len() > 0 && is_ident_start(s[0]) && forall|i: int| 0 <= i < s.len() ==> is_ident_continue(
        #[trigger] s[i],
    )
}

/// Every non-overlapping occurrence of `from` (scanned from the left) replaced by `to`.
pub open spec fn replace_all(s: Seq<char>, from: Seq<char>, to: Seq<char>) -> Seq<char>
    decreases s.len(),
{
    if s.len() == 0 || from.len() == 0 {
        s
    } else if starts_with(s, from) {
        to + replace_all(s.subrange(from.len() as int, s.len() as int), from, to)
    } else {
        seq![s[0]] + replace_all(s.subrange(1, s.len() as int), from, to)
    }
}

pub open spec fn stars(n: nat) -> Seq<char> {
    Seq::new(n, |i: int| '*')
}

/// A closure body with every whole-word occurrence of a simple parameter dereferenced `n`
/// times, outside string and character literals and comments (the text pipeline's rule).
pub open spec fn rewrite_closure_body(body: Seq<char>, param: Seq<char>, n: nat) -> Seq<char> {
    closure_body(body, param, n)
}

/// The elements of `list` with `sep` between them.
pub open spec fn join(list: Seq<Seq<char>>, sep: Seq<char>) -> Seq<char>
    decreases list.len(),
{
    if list.len() == 0 {
        seq![]
    } else if list.len() == 1 {
        list[0]
    } else {
        join(list.drop_last(), sep) + sep + list.last()
    }
}

/// Joining a list with one more element.
pub proof fn lemma_join_push(list: Seq<Seq<char>>, x: Seq<char>, sep: Seq<char>)
    ensures
        join(list.push(x), sep) == (if list.len() == 0 {
            x
        } else {
            join(list, sep) + sep + x
        }),
{
    assert(list.push(x).drop_last() =~= list);
}

/// A segment of text made safe inside a format string: braces doubled.
pub open spec fn escape_format(s: Seq<char>) -> Seq<char>
    decreases s.len(),
{
    if s.len() == 0 {
        seq![]
    } else {
        escape_format(s.drop_last()) + (if s.last() == '{' {
            "{{"@
        } else if s.last() == '}' {
            "}}"@
        } else {
            seq![s.last()]
        })
    }
}

/// The end of the interpolation whose body starts at `j`, at brace depth `depth`; a
/// backslash skips the next character.
pub open spec fn interpolation_end(s: Seq<char>, j: int, depth: nat) -> Option<int>
    decreases s.len() + 1 - j,
{
    if j < 0 || j >= s.len() {
        None
    } else if s[j] == '\\' {
        interpolation_end(s, j + 2, depth)
    } else if s[j] == '{' {
        interpolation_end(s, j + 1, depth + 1)
    } else if s[j] == '}' {
        if depth <= 1 {
            Some(j + 1)
        } else {
            interpolation_end(s, j + 1, (depth - 1) as nat)
        }
    } else {
        interpolation_end(s, j + 1, depth)
    }
}

/// The interpolations `{...}` of the content of a string literal from position `i`, as
/// (start of `{`, end after `}`), or `Err` with the position of an unclosed `{`.
pub open spec fn interpolations(s: Seq<char>, i: int) -> Result<Seq<(int, int)>, int>
    decreases s.len() + 1 - i,
{
    if i < 0 || i >= s.len() {
        Ok(seq![])
    } else if s[i] == '\\' {
        interpolations(s, i + 2)
    } else if s[i] == '{' {
        match interpolation_end(s, i + 1, 1) {
            Some(end) => if i < end <= s.len() {
                match interpolations(s, end) {
                    Ok(rest) => Ok(seq![(i, end)] + rest),
                    Err(at) => Err(at),
                }
            } else {
                Err(i)
            },
            None => Err(i),
        }
    } else {
        interpolations(s, i + 1)
    }
}

/// The content of a string literal: its text without the two quotes.
pub open spec fn literal_content(raw: Seq<char>) -> Seq<char> {
    raw.subrange(1, raw.len() - 1)
}

/// The format string of a literal with the given interpolations, from `cursor` on.
pub open spec fn format_text(content: Seq<char>, spots: Seq<(int, int)>, cursor: int) -> Seq<char>
    decreases spots.len(),
{
    if spots.len() == 0 {
        escape_format(content.subrange(cursor, content.len() as int))
    } else {
        escape_format(content.subrange(cursor, spots[0].0)) + "{}"@ + format_text(
            content,
            spots.drop_first(),
            spots[0].1,
        )
    }
}

/// Tokens moved `offset` characters to the right.
pub open spec fn shift_tokens(tokens: Seq<TokenView>, offset: int) -> Seq<TokenView> {
    tokens.map_values(
        |t: TokenView| TokenView { kind: t.kind, text: t.text, start: t.start + offset, end: t.end + offset },
    )
}

pub open spec fn op_text(op: BinaryOp) -> Seq<char> {
    match op {
        BinaryOp::Mul => "*"@,
        BinaryOp::Div => "/"@,
        BinaryOp::Rem => "%"@,
        BinaryOp::Add => "+"@,
        BinaryOp::Sub => "-"@,
        BinaryOp::Gt => ">"@,
        BinaryOp::Lt => "<"@,
        BinaryOp::Ge => ">="@,
        BinaryOp::Le => "<="@,
        BinaryOp::Eq => "=="@,
        BinaryOp::NotEq => "!="@,
        BinaryOp::And => "&&"@,
        BinaryOp::Or => "||"@,
    }
}

pub open spec fn unary_text(op: UnaryOp) -> Seq<char> {
    match op {
        UnaryOp::Ref => "&"@,
        UnaryOp::Not => "!"@,
        UnaryOp::Neg => "-"@,
    }
}

// ---------------------------------------------------------------------------------------
// Types.
pub open spec fn segment_name(name: Seq<char>) -> Seq<char> {
    if name == "string"@ {
        "String"@
    } else {
        name
    }
}

pub closed spec fn gen_type(t: SType) -> Seq<char>
    decreases t,
{
    match t {
        SType::Path(segments) => join(gen_segments(segments), "::"@),
        SType::Reference(lifetime, mutable, inner) => "&"@ + (match lifetime {
            Some(l) => l + " "@,
            None => seq![],
        }) + (if mutable {
            "mut "@
        } else {
            seq![]
        }) + gen_type(*inner),
    }
}

pub closed spec fn gen_segments(s: Seq<SSegment>) -> Seq<Seq<char>>
    decreases s,
{
    if s.len() == 0 {
        seq![]
    } else {
        gen_segments(s.drop_last()).push(gen_segment(s.last()))
    }
}

pub closed spec fn gen_segment(seg: SSegment) -> Seq<char>
    decreases seg,
{
    if seg.generics.len() == 0 {
        segment_name(seg.name)
    } else {
        segment_name(seg.name) + "<"@ + join(gen_types(seg.generics), ", "@) + ">"@
    }
}

pub closed spec fn gen_types(s: Seq<SType>) -> Seq<Seq<char>>
    decreases s,
{
    if s.len() == 0 {
        seq![]
    } else {
        gen_types(s.drop_last()).push(gen_type(s.last()))
    }
}

pub proof fn unfold_gen_type(t: SType)
    ensures
        gen_type(t) == (match t {
            SType::Path(segments) => join(gen_segments(segments), "::"@),
            SType::Reference(lifetime, mutable, inner) => "&"@ + (match lifetime {
                Some(l) => l + " "@,
                None => seq![],
            }) + (if mutable {
                "mut "@
            } else {
                seq![]
            }) + gen_type(*inner),
        }),
{
}

pub proof fn unfold_gen_segments(s: Seq<SSegment>)
    ensures
        gen_segments(s) == (if s.len() == 0 {
            seq![]
        } else {
            gen_segments(s.drop_last()).push(gen_segment(s.last()))
        }),
{
}

pub proof fn unfold_gen_segment(seg: SSegment)
    ensures
        gen_segment(seg) == (if seg.generics.len() == 0 {
            segment_name(seg.name)
        } else {
            segment_name(seg.name) + "<"@ + join(gen_types(seg.generics), ", "@) + ">"@
        }),
{
}

pub proof fn unfold_gen_types(s: Seq<SType>)
    ensures
        gen_types(s) == (if s.len() == 0 {
            seq![]
        } else {
            gen_types(s.drop_last()).push(gen_type(s.last()))
        }),
{
}

// ---------------------------------------------------------------------------------------
// Expressions.
/// What went wrong while generating: a message and the span of source text it points at.
pub type GenError = (Seq<char>, Span);

/// The error `e` is the diagnostic `err`.
pub open spec fn is_error(e: TranspileError, err: GenError) -> bool {
    e matches TranspileError::Diagnostic { message, span } && message@ == err.0 && span == err.1
}

/// The lexer's error at position `at` of `source`.
pub open spec fn lex_error(source: Seq<char>, at: int) -> GenError {
    (unexpected_message(source[at]), Span { start: at as usize, end: (at + 1) as usize })
}

/// The parser's error at token position `at`.
pub open spec fn parse_error_of(tokens: Seq<TokenView>, at: int) -> GenError {
    (parse_error_message(tokens, at), parse_error_span(tokens, at))
}

/// An interpolation of a string literal whose content starts at `base` that opens at `at`
/// and is not closed before the end `len` of the content.
pub open spec fn unclosed_interpolation(base: int, at: int, len: int) -> GenError {
    ("unclosed string interpolation"@, Span { start: (base + at) as usize, end: (base + len) as usize })
}

/// A method call of one of the iterator helpers.
pub open spec fn is_helper_call(e: SExpr) -> bool {
    e matches SExpr::MethodCall(_, method, _) && helper_kind(method) is Some
}

/// The Rust text of an expression, or the error of an interpolation in it that does not
/// compile (the leftmost one).
pub closed spec fn gen_expr(e: SExpr, ctx: ExprContext) -> Result<Seq<char>, GenError>
    decreases ctx_rank(ctx), e, 3int, 0int,
{
    if is_helper_call(e) {
        gen_chain(e, ctx)
    } else {
        match e {
            SExpr::Path(segments) => Ok(join(segments, "::"@)),
            SExpr::Str(_, _) => gen_string_literal(e, ctx),
            SExpr::Number(text) => Ok(text),
            SExpr::Char(text) => Ok(text),
            SExpr::Array(items) => match gen_exprs(items, default_ctx(ctx)) {
                Ok(parts) => Ok("vec!["@ + join(parts, ", "@) + "]"@),
                Err(err) => Err(err),
            },
            SExpr::MapLiteral(entries) => if entries.len() == 0 {
                Ok("std::collections::HashMap::new()"@)
            } else {
                match gen_entries(entries, ctx) {
                    Ok(parts) => Ok("std::collections::HashMap::from(["@ + join(parts, ", "@) + "])"@),
                    Err(err) => Err(err),
                }
            },
            SExpr::Call(callee, args) => match gen_expr(*callee, default_ctx(ctx)) {
                Err(err) => Err(err),
                Ok(c) => match gen_exprs(args, preserve_ctx(ctx)) {
                    Ok(a) => Ok(c + "("@ + join(a, ", "@) + ")"@),
                    Err(err) => Err(err),
                },
            },
            SExpr::MacroCall(path, args) => match gen_exprs(args, preserve_ctx(ctx)) {
                Ok(a) => Ok(join(path, "::"@) + "!("@ + join(a, ", "@) + ")"@),
                Err(err) => Err(err),
            },
            SExpr::MethodCall(receiver, method, args) => if method == "view"@ && args.len() == 0 {
                match gen_expr(*receiver, default_ctx(ctx)) {
                    Ok(r) => Ok(r + ".as_str()"@),
                    Err(err) => Err(err),
                }
            } else {
                match gen_expr(*receiver, default_ctx(ctx)) {
                    Err(err) => Err(err),
                    Ok(r) => match gen_exprs(args, preserve_ctx(ctx)) {
                        Ok(a) => Ok(r + "."@ + method + "("@ + join(a, ", "@) + ")"@),
                        Err(err) => Err(err),
                    },
                }
            },
            SExpr::Field(receiver, name) => match gen_expr(*receiver, default_ctx(ctx)) {
                Ok(r) => Ok(r + "."@ + name),
                Err(err) => Err(err),
            },
            SExpr::Index(receiver, index) => match gen_expr(*receiver, default_ctx(ctx)) {
                Err(err) => Err(err),
                Ok(r) => match gen_expr(*index, preserve_ctx(ctx)) {
                    Ok(i) => Ok(r + "["@ + i + "]"@),
                    Err(err) => Err(err),
                },
            },
            SExpr::Unary(op, inner) => match gen_expr(
                *inner,
                if op == UnaryOp::Ref {
                    preserve_ctx(ctx)
                } else {
                    default_ctx(ctx)
                },
            ) {
                Ok(i) => Ok(unary_text(op) + i),
                Err(err) => Err(err),
            },
            SExpr::Binary(lhs, op, rhs) => match gen_expr(*lhs, default_ctx(ctx)) {
                Err(err) => Err(err),
                Ok(l) => match gen_expr(*rhs, default_ctx(ctx)) {
                    Ok(r) => Ok(l + " "@ + op_text(op) + " "@ + r),
                    Err(err) => Err(err),
                },
            },
            SExpr::Closure(param, body) => match gen_expr(*body, default_ctx(ctx)) {
                Ok(b) => Ok("|"@ + param + "| "@ + b),
                Err(err) => Err(err),
            },
            SExpr::Paren(inner) => match gen_expr(*inner, default_ctx(ctx)) {
                Ok(i) => Ok("("@ + i + ")"@),
                Err(err) => Err(err),
            },
            SExpr::Return(inner) => match gen_expr(*inner, default_ctx(ctx)) {
                Ok(i) => Ok("return "@ + i),
                Err(err) => Err(err),
            },
        }
    }
}

/// A chain of iterator helpers: `.iter()` added where the receiver does not iterate yet,
/// each helper renamed, closure parameters dereferenced, `.collect()` after `map`/`filter`.
pub closed spec fn gen_chain(e: SExpr, ctx: ExprContext) -> Result<Seq<char>, GenError>
    decreases ctx_rank(ctx), e, 2int, 0int,
{
    let kind = helper_kind(e->MethodCall_1).unwrap();
    match chain_base(e, ctx) {
        Ok(base) => match chain_text(e, ctx, iterator_kind(base)) {
            Ok(text) => Ok(text + (if kind == HelperKind::MapHelper || kind == HelperKind::Filter {
                ".collect()"@
            } else {
                seq![]
            })),
            Err(err) => Err(err),
        },
        Err(err) => Err(err),
    }
}

/// The text of the receiver under a chain of helpers.
pub closed spec fn chain_base(e: SExpr, ctx: ExprContext) -> Result<Seq<char>, GenError>
    decreases ctx_rank(ctx), e, 1int, 0int,
{
    match e {
        SExpr::MethodCall(receiver, _, _) => if is_helper_call(*receiver) {
            chain_base(*receiver, ctx)
        } else {
            gen_expr(*receiver, default_ctx(ctx))
        },
        _ => Ok(seq![]),
    }
}

/// A helper chain written out, without the final `.collect()`.
pub closed spec fn chain_text(e: SExpr, ctx: ExprContext, iter: IteratorKind) -> Result<Seq<char>, GenError>
    decreases ctx_rank(ctx), e, 1int, 0int,
{
    match e {
        SExpr::MethodCall(receiver, method, args) => {
            let kind = helper_kind(method).unwrap();
            let prefix = if is_helper_call(*receiver) {
                chain_text(*receiver, ctx, iter)
            } else {
                match gen_expr(*receiver, default_ctx(ctx)) {
                    Ok(base) => Ok(base + (if iter == IteratorKind::NeedsIter {
                        ".iter()"@
                    } else {
                        seq![]
                    })),
                    Err(err) => Err(err),
                }
            };
            match prefix {
                Err(err) => Err(err),
                Ok(p) => match helper_argument(args, kind, iter, ctx) {
                    Ok(a) => Ok(p + rust_name(kind) + "("@ + a + ")"@),
                    Err(err) => Err(err),
                },
            }
        },
        _ => Ok(seq![]),
    }
}

/// The argument of a helper: a closure with its body rewritten, or the expression.
pub closed spec fn helper_argument(args: Seq<SExpr>, kind: HelperKind, iter: IteratorKind, ctx: ExprContext) -> Result<Seq<char>, GenError>
    decreases ctx_rank(ctx), args, 0int, 0int,
{
    if args.len() == 0 {
        Ok(seq![])
    } else {
        match args[0] {
            SExpr::Closure(param, body) => match gen_expr(*body, default_ctx(ctx)) {
                Ok(b) => Ok(
                    "|"@ + param + "| "@ + rewrite_closure_body(b, param, deref_count(kind, iter)),
                ),
                Err(err) => Err(err),
            },
            _ => gen_expr(args[0], default_ctx(ctx)),
        }
    }
}

/// The texts of a sequence of expressions.
pub closed spec fn gen_exprs(s: Seq<SExpr>, ctx: ExprContext) -> Result<Seq<Seq<char>>, GenError>
    decreases ctx_rank(ctx), s, 0int, 0int,
{
    if s.len() == 0 {
        Ok(seq![])
    } else {
        match gen_exprs(s.drop_last(), ctx) {
            Err(err) => Err(err),
            Ok(init) => match gen_expr(s.last(), ctx) {
                Ok(last) => Ok(init.push(last)),
                Err(err) => Err(err),
            },
        }
    }
}

/// The `(key, value)` texts of map literal entries.
pub closed spec fn gen_entries(s: Seq<SEntry>, ctx: ExprContext) -> Result<Seq<Seq<char>>, GenError>
    decreases ctx_rank(ctx), s, 0int, 0int,
{
    if s.len() == 0 {
        Ok(seq![])
    } else {
        match gen_entries(s.drop_last(), ctx) {
            Err(err) => Err(err),
            Ok(init) => match gen_expr(s.last().key, default_ctx(ctx)) {
                Err(err) => Err(err),
                Ok(k) => match gen_expr(s.last().value, default_ctx(ctx)) {
                    Ok(v) => Ok(init.push("("@ + k + ", "@ + v + ")"@)),
                    Err(err) => Err(err),
                },
            },
        }
    }
}

/// A string literal: kept as written where a `&str` is wanted; else `String::from(..)`, or
/// `format!(..)` when it holds `{...}` interpolations; an unclosed `{` is an error that
/// runs from it to the end of the content.
pub closed spec fn gen_string_literal(lit: SExpr, ctx: ExprContext) -> Result<Seq<char>, GenError>
    decreases ctx_rank(ctx), lit, 2int, 0int,
{
    let raw = lit->Str_0;
    let span = lit->Str_1;
    if ctx.preserve_strings {
        Ok(raw)
    } else if ctx.in_interpolation {
        Ok("String::from("@ + raw + ")"@)
    } else {
        let content = literal_content(raw);
        match interpolations(content, 0) {
            Err(at) => Err(unclosed_interpolation(span.start + 1, at, content.len() as int)),
            Ok(spots) => if spots.len() == 0 {
                Ok("String::from("@ + raw + ")"@)
            } else {
                match embedded_args(lit, content, spots, span.start + 1, ctx) {
                    Ok(args) => Ok(
                        "format!(\""@ + format_text(content, spots, 0) + "\", "@ + join(args, ", "@)
                            + ")"@,
                    ),
                    Err(err) => Err(err),
                }
            },
        }
    }
}

/// The texts of the interpolated expressions, in order.
pub closed spec fn embedded_args(lit: SExpr, content: Seq<char>, spots: Seq<(int, int)>, base: int, ctx: ExprContext) -> Result<Seq<Seq<char>>, GenError>
    decreases ctx_rank(ctx), lit, 1int, spots.len(),
{
    if spots.len() == 0 {
        Ok(seq![])
    } else {
        let spot = spots.last();
        match embedded_args(lit, content, spots.drop_last(), base, ctx) {
            Err(err) => Err(err),
            Ok(init) => match gen_embedded(
                lit,
                content.subrange(spot.0 + 1, spot.1 - 1),
                base + spot.0 + 1,
                ctx,
            ) {
                Ok(last) => Ok(init.push(last)),
                Err(err) => Err(err),
            },
        }
    }
}

/// An interpolated expression, lexed and parsed on its own, its token positions moved by
/// `offset`; a lexer error keeps its position in `source`. (Inside an interpolation string
/// literals are not scanned for interpolations, so the first branch is never taken.)
pub closed spec fn gen_embedded(lit: SExpr, source: Seq<char>, offset: int, ctx: ExprContext) -> Result<Seq<char>, GenError>
    decreases ctx_rank(ctx), lit, 0int, 0int,
{
    if ctx.in_interpolation {
        Ok(seq![])
    } else {
        match lex_spec(source) {
            Err(at) => Err(lex_error(source, at)),
            Ok(tokens) => match parse_whole_expression(shift_tokens(tokens, offset)) {
                Err(at) => Err(parse_error_of(shift_tokens(tokens, offset), at)),
                Ok(e) => gen_expr(e, ExprContext { preserve_strings: false, in_interpolation: true }),
            },
        }
    }
}

/// A failing prefix makes the whole list fail with its error.
pub proof fn lemma_gen_exprs_prefix(s: Seq<SExpr>, j: int, ctx: ExprContext)
    requires
        0 <= j <= s.len(),
        gen_exprs(s.take(j), ctx) is Err,
    ensures
        gen_exprs(s, ctx) == gen_exprs(s.take(j), ctx),
    decreases s.len(),
{
    if j < s.len() {
        assert(s.drop_last().take(j) =~= s.take(j));
        lemma_gen_exprs_prefix(s.drop_last(), j, ctx);
    } else {
        assert(s.take(j) =~= s);
    }
}

/// A failing prefix makes the whole list of entries fail with its error.
pub proof fn lemma_gen_entries_prefix(s: Seq<SEntry>, j: int, ctx: ExprContext)
    requires
        0 <= j <= s.len(),
        gen_entries(s.take(j), ctx) is Err,
    ensures
        gen_entries(s, ctx) == gen_entries(s.take(j), ctx),
    decreases s.len(),
{
    if j < s.len() {
        assert(s.drop_last().take(j) =~= s.take(j));
        lemma_gen_entries_prefix(s.drop_last(), j, ctx);
    } else {
        assert(s.take(j) =~= s);
    }
}

/// A failing interpolation makes the whole literal's arguments fail with its error.
pub proof fn lemma_embedded_args_prefix(
    lit: SExpr,
    content: Seq<char>,
    spots: Seq<(int, int)>,
    j: int,
    base: int,
    ctx: ExprContext,
)
    requires
        0 <= j <= spots.len(),
        embedded_args(lit, content, spots.take(j), base, ctx) is Err,
    ensures
        embedded_args(lit, content, spots, base, ctx) == embedded_args(lit, content, spots.take(j), base, ctx),
    decreases spots.len(),
{
    if j < spots.len() {
        assert(spots.drop_last().take(j) =~= spots.take(j));
        lemma_embedded_args_prefix(lit, content, spots.drop_last(), j, base, ctx);
    } else {
        assert(spots.take(j) =~= spots);
    }
}

pub proof fn unfold_gen_expr(e: SExpr, ctx: ExprContext)
    ensures
        gen_expr(e, ctx) == ({
    if is_helper_call(e) {
        gen_chain(e, ctx)
    } else {
        match e {
            SExpr::Path(segments) => Ok(join(segments, "::"@)),
            SExpr::Str(_, _) => gen_string_literal(e, ctx),
            SExpr::Number(text) => Ok(text),
            SExpr::Char(text) => Ok(text),
            SExpr::Array(items) => match gen_exprs(items, default_ctx(ctx)) {
                Ok(parts) => Ok("vec!["@ + join(parts, ", "@) + "]"@),
                Err(err) => Err(err),
            },
            SExpr::MapLiteral(entries) => if entries.len() == 0 {
                Ok("std::collections::HashMap::new()"@)
            } else {
                match gen_entries(entries, ctx) {
                    Ok(parts) => Ok("std::collections::HashMap::from(["@ + join(parts, ", "@) + "])"@),
                    Err(err) => Err(err),
                }
            },
            SExpr::Call(callee, args) => match gen_expr(*callee, default_ctx(ctx)) {
                Err(err) => Err(err),
                Ok(c) => match gen_exprs(args, preserve_ctx(ctx)) {
                    Ok(a) => Ok(c + "("@ + join(a, ", "@) + ")"@),
                    Err(err) => Err(err),
                },
            },
            SExpr::MacroCall(path, args) => match gen_exprs(args, preserve_ctx(ctx)) {
                Ok(a) => Ok(join(path, "::"@) + "!("@ + join(a, ", "@) + ")"@),
                Err(err) => Err(err),
            },
            SExpr::MethodCall(receiver, method, args) => if method == "view"@ && args.len() == 0 {
                match gen_expr(*receiver, default_ctx(ctx)) {
                    Ok(r) => Ok(r + ".as_str()"@),
                    Err(err) => Err(err),
                }
            } else {
                match gen_expr(*receiver, default_ctx(ctx)) {
                    Err(err) => Err(err),
                    Ok(r) => match gen_exprs(args, preserve_ctx(ctx)) {
                        Ok(a) => Ok(r + "."@ + method + "("@ + join(a, ", "@) + ")"@),
                        Err(err) => Err(err),
                    },
                }
            },
            SExpr::Field(receiver, name) => match gen_expr(*receiver, default_ctx(ctx)) {
                Ok(r) => Ok(r + "."@ + name),
                Err(err) => Err(err),
            },
            SExpr::Index(receiver, index) => match gen_expr(*receiver, default_ctx(ctx)) {
                Err(err) => Err(err),
                Ok(r) => match gen_expr(*index, preserve_ctx(ctx)) {
                    Ok(i) => Ok(r + "["@ + i + "]"@),
                    Err(err) => Err(err),
                },
            },
            SExpr::Unary(op, inner) => match gen_expr(
                *inner,
                if op == UnaryOp::Ref {
                    preserve_ctx(ctx)
                } else {
                    default_ctx(ctx)
                },
            ) {
                Ok(i) => Ok(unary_text(op) + i),
                Err(err) => Err(err),
            },
            SExpr::Binary(lhs, op, rhs) => match gen_expr(*lhs, default_ctx(ctx)) {
                Err(err) => Err(err),
                Ok(l) => match gen_expr(*rhs, default_ctx(ctx)) {
                    Ok(r) => Ok(l + " "@ + op_text(op) + " "@ + r),
                    Err(err) => Err(err),
                },
            },
            SExpr::Closure(param, body) => match gen_expr(*body, default_ctx(ctx)) {
                Ok(b) => Ok("|"@ + param + "| "@ + b),
                Err(err) => Err(err),
            },
            SExpr::Paren(inner) => match gen_expr(*inner, default_ctx(ctx)) {
                Ok(i) => Ok("("@ + i + ")"@),
                Err(err) => Err(err),
            },
            SExpr::Return(inner) => match gen_expr(*inner, default_ctx(ctx)) {
                Ok(i) => Ok("return "@ + i),
                Err(err) => Err(err),
            },
        }
    }
        }),
{
}

pub proof fn unfold_gen_chain(e: SExpr, ctx: ExprContext)
    ensures
        gen_chain(e, ctx) == ({
    let kind = helper_kind(e->MethodCall_1).unwrap();
    match chain_base(e, ctx) {
        Ok(base) => match chain_text(e, ctx, iterator_kind(base)) {
            Ok(text) => Ok(text + (if kind == HelperKind::MapHelper || kind == HelperKind::Filter {
                ".collect()"@
            } else {
                seq![]
            })),
            Err(err) => Err(err),
        },
        Err(err) => Err(err),
    }
        }),
{
}

pub proof fn unfold_chain_base(e: SExpr, ctx: ExprContext)
    ensures
        chain_base(e, ctx) == ({
    match e {
        SExpr::MethodCall(receiver, _, _) => if is_helper_call(*receiver) {
            chain_base(*receiver, ctx)
        } else {
            gen_expr(*receiver, default_ctx(ctx))
        },
        _ => Ok(seq![]),
    }
        }),
{
}

pub proof fn unfold_chain_text(e: SExpr, ctx: ExprContext, iter: IteratorKind)
    ensures
        chain_text(e, ctx, iter) == ({
    match e {
        SExpr::MethodCall(receiver, method, args) => {
            let kind = helper_kind(method).unwrap();
            let prefix = if is_helper_call(*receiver) {
                chain_text(*receiver, ctx, iter)
            } else {
                match gen_expr(*receiver, default_ctx(ctx)) {
                    Ok(base) => Ok(base + (if iter == IteratorKind::NeedsIter {
                        ".iter()"@
                    } else {
                        seq![]
                    })),
                    Err(err) => Err(err),
                }
            };
            match prefix {
                Err(err) => Err(err),
                Ok(p) => match helper_argument(args, kind, iter, ctx) {
                    Ok(a) => Ok(p + rust_name(kind) + "("@ + a + ")"@),
                    Err(err) => Err(err),
                },
            }
        },
        _ => Ok(seq![]),
    }
        }),
{
}

pub proof fn unfold_helper_argument(args: Seq<SExpr>, kind: HelperKind, iter: IteratorKind, ctx: ExprContext)
    ensures
        helper_argument(args, kind, iter, ctx) == ({
    if args.len() == 0 {
        Ok(seq![])
    } else {
        match args[0] {
            SExpr::Closure(param, body) => match gen_expr(*body, default_ctx(ctx)) {
                Ok(b) => Ok(
                    "|"@ + param + "| "@ + rewrite_closure_body(b, param, deref_count(kind, iter)),
                ),
                Err(err) => Err(err),
            },
            _ => gen_expr(args[0], default_ctx(ctx)),
        }
    }
        }),
{
}

pub proof fn unfold_gen_exprs(s: Seq<SExpr>, ctx: ExprContext)
    ensures
        gen_exprs(s, ctx) == ({
    if s.len() == 0 {
        Ok(seq![])
    } else {
        match gen_exprs(s.drop_last(), ctx) {
            Err(err) => Err(err),
            Ok(init) => match gen_expr(s.last(), ctx) {
                Ok(last) => Ok(init.push(last)),
                Err(err) => Err(err),
            },
        }
    }
        }),
{
}

pub proof fn unfold_gen_entries(s: Seq<SEntry>, ctx: ExprContext)
    ensures
        gen_entries(s, ctx) == ({
    if s.len() == 0 {
        Ok(seq![])
    } else {
        match gen_entries(s.drop_last(), ctx) {
            Err(err) => Err(err),
            Ok(init) => match gen_expr(s.last().key, default_ctx(ctx)) {
                Err(err) => Err(err),
                Ok(k) => match gen_expr(s.last().value, default_ctx(ctx)) {
                    Ok(v) => Ok(init.push("("@ + k + ", "@ + v + ")"@)),
                    Err(err) => Err(err),
                },
            },
        }
    }
        }),
{
}

pub proof fn unfold_gen_string_literal(lit: SExpr, ctx: ExprContext)
    ensures
        gen_string_literal(lit, ctx) == ({
    let raw = lit->Str_0;
    let span = lit->Str_1;
    if ctx.preserve_strings {
        Ok(raw)
    } else if ctx.in_interpolation {
        Ok("String::from("@ + raw + ")"@)
    } else {
        let content = literal_content(raw);
        match interpolations(content, 0) {
            Err(at) => Err(unclosed_interpolation(span.start + 1, at, content.len() as int)),
            Ok(spots) => if spots.len() == 0 {
                Ok("String::from("@ + raw + ")"@)
            } else {
                match embedded_args(lit, content, spots, span.start + 1, ctx) {
                    Ok(args) => Ok(
                        "format!(\""@ + format_text(content, spots, 0) + "\", "@ + join(args, ", "@)
                            + ")"@,
                    ),
                    Err(err) => Err(err),
                }
            },
        }
    }
        }),
{
}

pub proof fn unfold_embedded_args(lit: SExpr, content: Seq<char>, spots: Seq<(int, int)>, base: int, ctx: ExprContext)
    ensures
        embedded_args(lit, content, spots, base, ctx) == ({
    if spots.len() == 0 {
        Ok(seq![])
    } else {
        let spot = spots.last();
        match embedded_args(lit, content, spots.drop_last(), base, ctx) {
            Err(err) => Err(err),
            Ok(init) => match gen_embedded(
                lit,
                content.subrange(spot.0 + 1, spot.1 - 1),
                base + spot.0 + 1,
                ctx,
            ) {
                Ok(last) => Ok(init.push(last)),
                Err(err) => Err(err),
            },
        }
    }
        }),
{
}

pub proof fn unfold_gen_embedded(lit: SExpr, source: Seq<char>, offset: int, ctx: ExprContext)
    ensures
        gen_embedded(lit, source, offset, ctx) == ({
    if ctx.in_interpolation {
        Ok(seq![])
    } else {
        match lex_spec(source) {
            Err(at) => Err(lex_error(source, at)),
            Ok(tokens) => match parse_whole_expression(shift_tokens(tokens, offset)) {
                Err(at) => Err(parse_error_of(shift_tokens(tokens, offset), at)),
                Ok(e) => gen_expr(e, ExprContext { preserve_strings: false, in_interpolation: true }),
            },
        }
    }
        }),
{
}

// ---------------------------------------------------------------------------------------
// Statements, blocks and items.
pub open spec fn plain_ctx() -> ExprContext {
    ExprContext { preserve_strings: false, in_interpolation: false }
}

pub open spec fn keep_strings_ctx() -> ExprContext {
    ExprContext { preserve_strings: true, in_interpolation: false }
}

/// `string` or `String`, alone.
pub open spec fn is_owned_string_type(t: SType) -> bool {
    t matches SType::Path(segments) && segments.len() == 1 && (segments[0].name == "string"@
        || segments[0].name == "String"@)
}

/// `Result`, with or without generics.
pub open spec fn is_result_type(t: SType) -> bool {
    t matches SType::Path(segments) && segments.len() == 1 && segments[0].name == "Result"@
}

/// A tail expression that is wrapped in `Ok(..)` in a function returning `Result`: anything
/// but a `return` and a call of `Ok` or `Err`.
pub open spec fn should_wrap_result_expr(e: SExpr) -> bool {
    !(e is Return) && !(e matches SExpr::Call(callee, _) && (*callee matches SExpr::Path(
        segments,
    ) && segments.len() == 1 && (segments[0] == "Ok"@ || segments[0] == "Err"@)))
}

/// Text that already makes an owned `String`.
pub open spec fn builds_string(g: Seq<char>) -> bool {
    starts_with(g, "String::from("@) || starts_with(g, "format!("@) || ends_with(
        g,
        ".to_string()"@,
    ) || g == "String::new()"@
}

/// The value of a `let` with a type annotation: a string bound to `String` becomes owned.
pub open spec fn gen_let_value(ty: SType, value: SExpr) -> Result<Seq<char>, GenError> {
    if !is_owned_string_type(ty) {
        gen_expr(value, plain_ctx())
    } else {
        match gen_expr(value, keep_strings_ctx()) {
            Ok(g) => Ok(
                if builds_string(g) {
                    g
                } else {
                    "String::from("@ + g + ")"@
                },
            ),
            Err(err) => Err(err),
        }
    }
}

pub open spec fn mut_text(mutable: bool) -> Seq<char> {
    if mutable {
        "mut "@
    } else {
        seq![]
    }
}

pub open spec fn gen_stmt(s: SStmt) -> Result<Seq<char>, GenError> {
    match s {
        SStmt::Let(mutable, name, ty, value) => match ty {
            Some(ty) => match gen_let_value(ty, value) {
                Ok(v) => Ok(
                    "let "@ + mut_text(mutable) + name + ": "@ + gen_type(ty) + " = "@ + v + ";"@,
                ),
                Err(err) => Err(err),
            },
            None => match gen_expr(value, plain_ctx()) {
                Ok(v) => Ok("let "@ + mut_text(mutable) + name + " = "@ + v + ";"@),
                Err(err) => Err(err),
            },
        },
        SStmt::IndexAssign(target, index, value) => match gen_expr(target, plain_ctx()) {
            Err(err) => Err(err),
            Ok(t) => match gen_expr(index, keep_strings_ctx()) {
                Err(err) => Err(err),
                Ok(i) => match gen_expr(value, plain_ctx()) {
                    Ok(v) => Ok(t + ".insert("@ + i + ", "@ + v + ");"@),
                    Err(err) => Err(err),
                },
            },
        },
        SStmt::Expr(e) => match gen_expr(e, plain_ctx()) {
            Ok(g) => Ok(g + ";"@),
            Err(err) => Err(err),
        },
    }
}

pub open spec fn gen_stmts(s: Seq<SStmt>) -> Result<Seq<Seq<char>>, GenError>
    decreases s.len(),
{
    if s.len() == 0 {
        Ok(seq![])
    } else {
        match gen_stmts(s.drop_last()) {
            Err(err) => Err(err),
            Ok(init) => match gen_stmt(s.last()) {
                Ok(last) => Ok(init.push(last)),
                Err(err) => Err(err),
            },
        }
    }
}

/// The tail of a block; wrapped in `Ok(..)` when the function returns `Result`.
pub open spec fn gen_tail(tail: SExpr, return_type: Option<SType>) -> Result<Seq<char>, GenError> {
    match gen_expr(tail, plain_ctx()) {
        Ok(g) => Ok(
            if return_type matches Some(ty) && is_result_type(ty) && should_wrap_result_expr(tail) {
                "Ok("@ + g + ")"@
            } else {
                g
            },
        ),
        Err(err) => Err(err),
    }
}

pub open spec fn gen_block(b: SBlock, return_type: Option<SType>) -> Result<Seq<char>, GenError> {
    match gen_stmts(b.statements) {
        Ok(parts) => match b.tail {
            Some(tail) => match gen_tail(tail, return_type) {
                Ok(t) => Ok("{ "@ + join(parts.push(t), " "@) + " }"@),
                Err(err) => Err(err),
            },
            None => Ok("{ "@ + join(parts, " "@) + " }"@),
        },
        Err(err) => Err(err),
    }
}

pub open spec fn gen_params(s: Seq<SParam>) -> Seq<Seq<char>>
    decreases s.len(),
{
    if s.len() == 0 {
        seq![]
    } else {
        gen_params(s.drop_last()).push(s.last().name + ": "@ + gen_type(s.last().ty))
    }
}

pub open spec fn gen_signature(name: Seq<char>, params: Seq<SParam>, ret: Option<SType>) -> Seq<
    char,
> {
    "fn "@ + name + "("@ + join(gen_params(params), ", "@) + ")"@ + match ret {
        Some(ty) => " -> "@ + gen_type(ty),
        None => seq![],
    }
}

/// Whether a string literal holds an interpolation (an unclosed one counts as none).
pub open spec fn has_interpolation(raw: Seq<char>) -> bool {
    interpolations(literal_content(raw), 0) matches Ok(spots) && spots.len() > 0
}

pub open spec fn gen_item(item: SItem) -> Result<Seq<char>, GenError> {
    match item {
        SItem::Function(name, params, ret, body) => match gen_block(body, ret) {
            Ok(b) => Ok(gen_signature(name, params, ret) + " "@ + b),
            Err(err) => Err(err),
        },
        SItem::Static(name, ty, value) => if is_owned_string_type(ty) && (value matches SExpr::Str(
            raw,
            _,
        ) && !has_interpolation(raw)) {
            Ok("static "@ + name + ": &str = "@ + value->Str_0 + ";"@)
        } else {
            match gen_expr(value, plain_ctx()) {
                Ok(v) => Ok("static "@ + name + ": "@ + gen_type(ty) + " = "@ + v + ";"@),
                Err(err) => Err(err),
            }
        },
    }
}

pub open spec fn gen_items(s: Seq<SItem>) -> Result<Seq<Seq<char>>, GenError>
    decreases s.len(),
{
    if s.len() == 0 {
        Ok(seq![])
    } else {
        match gen_items(s.drop_last()) {
            Err(err) => Err(err),
            Ok(init) => match gen_item(s.last()) {
                Ok(last) => Ok(init.push(last)),
                Err(err) => Err(err),
            },
        }
    }
}

/// The Rust text of a module: its items, one per line; or the first error.
pub open spec fn gen_module(items: Seq<SItem>) -> Result<Seq<char>, GenError> {
    match gen_items(items) {
        Ok(parts) => Ok(join(parts, "\n"@)),
        Err(err) => Err(err),
    }
}

} // verus!
