//! The text pipeline: a source file rewritten stage by stage into Rust.
use crate::text::{chars_of, string_of};
use crate::transpiler::compiler::generator::spec::replace_all;
use crate::transpiler::compiler::generator::text::replace_chars;
use crate::transpiler::error::TranspileError;
use super::bindings::{
    BindingRule, STATIC_STRING_PATTERN, STRING_BINDING_PATTERN, pattern_error, regex_capture_spans,
    replaced, rewrite_static_strings, rewrite_string_bindings,
};
use super::collections::{index_assign_from, rewrite_hash_map_index_assignments};
use super::functions::{
    result_functions_from, returns_from, rewrite_result_functions, rewrite_signature_returns,
};
use super::iterators::{iter_spec, rewrite_iterator_helpers};
use super::keywords::{rewrite_word, rewrite_word_spec};
use super::literals::{literals_spec, rewrite_literals};
use vstd::prelude::*;

verus! {

/// A stage that can miss a delimiter, as a transpiler outcome.
pub open spec fn staged(r: Result<Seq<char>, char>) -> Result<Seq<char>, TranspileError> {
    match r {
        Ok(t) => Ok(t),
        Err(c) => Err(TranspileError::UnclosedDelimiter(c)),
    }
}

/// The outcome of a transpiler call, its text as characters.
pub open spec fn outcome(r: Result<String, TranspileError>) -> Result<Seq<char>, TranspileError> {
    match r {
        Ok(t) => Ok(t@),
        Err(e) => Err(e),
    }
}

/// The text after the stages that follow the literals: iterator helpers, map assignments,
/// `String` bindings and statics, and `Ok(..)` tails.
pub open spec fn after_literals(t4: Seq<char>) -> Result<Seq<char>, TranspileError> {
    match staged(iter_spec(t4)) {
        Err(e) => Err(e),
        Ok(t5) => match staged(index_assign_from(t5, 0)) {
            Err(e) => Err(e),
            Ok(t6) => match regex_capture_spans(STRING_BINDING_PATTERN@, t6) {
                None => Err(pattern_error()),
                Some(bindings) => {
                    let t7 = replaced(BindingRule::Binding, t6, bindings);
                    match regex_capture_spans(STATIC_STRING_PATTERN@, t7) {
                        None => Err(pattern_error()),
                        Some(statics) => staged(
                            result_functions_from(replaced(BindingRule::Static, t7, statics), 0),
                        ),
                    }
                },
            },
        },
    }
}

/// What a source file becomes: line endings made `\n`, a signature's `: T` made `-> T`,
/// `string` made `String`, `.view()` made `.as_str()`, then the literals, the iterator
/// helpers, the map assignments, the `String` bindings and statics, and the `Ok(..)` tails rewritten.
pub open spec fn transpiled(source: Seq<char>) -> Result<Seq<char>, TranspileError> {
    let t0 = replace_all(source, "\r\n"@, "\n"@);
    match staged(returns_from(t0, 0)) {
        Err(e) => Err(e),
        Ok(t1) => {
            let t2 = rewrite_word_spec(t1, "string"@, "String"@, 0);
            let t3 = replace_all(t2, ".view()"@, ".as_str()"@);
            match staged(literals_spec(t3)) {
                Err(e) => Err(e),
                Ok(t4) => after_literals(t4),
            }
        },
    }
}

/// `text` with every `from` replaced by `to`, as `str::replace` does.
fn replace_text(text: &str, from: &str, to: &str) -> (r: String)
    requires
        from@.len() > 0,
    ensures
        r@ == replace_all(text@, from@, to@),
{
    let s = chars_of(text);
    let f = chars_of(from);
    let t = chars_of(to);
    let out = replace_chars(&s, &f, &t);
    string_of(&out)
}

/// Transpiles a source file with the text pipeline: see `transpiled`.
pub fn transpile_source(source: &str, is_main_module: bool) -> (r: Result<String, TranspileError>)
    ensures
        outcome(r) == transpiled(source@),
{
    proof {
        reveal_strlit("\r\n");
        reveal_strlit("string");
        reveal_strlit(".view()");
    }
    let text = replace_text(source, "\r\n", "\n");
    let text = match rewrite_signature_returns(text.as_str()) {
        Ok(t) => t,
        Err(e) => {
            return Err(e);
        },
    };
    let text = rewrite_word(text.as_str(), "string", "String");
    let text = replace_text(text.as_str(), ".view()", ".as_str()");
    let text = match rewrite_literals(text.as_str()) {
        Ok(t) => t,
        Err(e) => {
            return Err(e);
        },
    };
    let text = match rewrite_iterator_helpers(text.as_str()) {
        Ok(t) => t,
        Err(e) => {
            return Err(e);
        },
    };
    let text = match rewrite_hash_map_index_assignments(text.as_str()) {
        Ok(t) => t,
        Err(e) => {
            return Err(e);
        },
    };
    let text = match rewrite_string_bindings(text.as_str()) {
        Ok(t) => t,
        Err(e) => {
            return Err(e);
        },
    };
    let text = match rewrite_static_strings(text.as_str()) {
        Ok(t) => t,
        Err(e) => {
            return Err(e);
        },
    };
    rewrite_result_functions(text.as_str())
}

} // verus!
