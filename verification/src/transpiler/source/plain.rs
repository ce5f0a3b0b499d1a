//! Text that the pipeline has nothing to rewrite in passes through unchanged.
use crate::project::fields::{find_char, lemma_find_char_bounds};
use crate::text::is_ident_start;
use crate::transpiler::compiler::generator::spec::{replace_all, starts_with};
use super::bindings::{
    BindingRule, STATIC_STRING_PATTERN, STRING_BINDING_PATTERN, regex_capture_spans, replaced,
};
use super::collections::{index_assign_from, index_assignment};
use super::functions::{result_functions_from, returns_from, signature_end};
use super::iterators::{chain_spec, helper_from, iter_from};
use super::keywords::{keyword_at, rewrite_word_spec};
use super::literals::literals_from;
use super::pipeline::transpiled;
use super::scan::{
    dec, identifier_end, lemma_identifier_end_bounds, lemma_skip_ws_bounds, skip_at, skip_ws,
};
use vstd::prelude::*;

verus! {

/// A character that starts something the pipeline rewrites or scans past: a quote, an
/// apostrophe, a slash, an opening square bracket or brace, a colon, a dot or a carriage
/// return.
pub open spec fn special(c: char) -> bool {
    c == '"' || c == '\'' || c == '/' || c == '[' || c == '{' || c == ':' || c == '.' || c == '\r'
}

/// A text with no special character and no whole word `string`.
pub open spec fn plain_text(s: Seq<char>) -> bool {
    &&& forall|i: int| 0 <= i < s.len() ==> !special(#[trigger] s[i])
    &&& forall|i: int| !keyword_at(s, i, "string"@)
}

proof fn lemma_no_skip(s: Seq<char>, i: int, comments: bool)
    requires
        0 <= i < s.len(),
        !special(s[i]),
    ensures
        skip_at(s, i, comments) is None,
{
}

proof fn lemma_returns_plain(s: Seq<char>, i: int)
    requires
        plain_text(s),
        0 <= i <= s.len(),
    ensures
        returns_from(s, i) == Ok::<Seq<char>, char>(s.subrange(i, s.len() as int)),
    decreases s.len() - i,
{
    if i < s.len() {
        lemma_no_skip(s, i, true);
        match signature_end(s, i) {
            Some(e) => {
                lemma_returns_plain(s, e);
                let w = skip_ws(s, e);
                lemma_skip_ws_bounds(s, e);
                if w < s.len() {
                    assert(!special(s[w]));
                }
                assert(s.subrange(i, e) + s.subrange(e, s.len() as int) =~= s.subrange(
                    i,
                    s.len() as int,
                ));
            },
            None => {
                lemma_returns_plain(s, i + 1);
                let w = skip_ws(s, i + 1);
                lemma_skip_ws_bounds(s, i + 1);
                if w < s.len() {
                    assert(!special(s[w]));
                }
                assert(seq![s[i]] + s.subrange(i + 1, s.len() as int) =~= s.subrange(
                    i,
                    s.len() as int,
                ));
            },
        }
    } else {
        assert(s.subrange(i, s.len() as int) =~= Seq::<char>::empty());
    }
}

proof fn lemma_literals_plain(s: Seq<char>, i: int)
    requires
        plain_text(s),
        0 <= i <= s.len(),
    ensures
        literals_from(s, i) == Ok::<Seq<char>, char>(s.subrange(i, s.len() as int)),
    decreases s.len() - i,
{
    if i < s.len() {
        assert(!special(s[i]));
        lemma_literals_plain(s, i + 1);
        assert(seq![s[i]] + s.subrange(i + 1, s.len() as int) =~= s.subrange(i, s.len() as int));
    } else {
        assert(s.subrange(i, s.len() as int) =~= Seq::<char>::empty());
    }
}

proof fn lemma_helper_plain(s: Seq<char>, i: int, p: nat, b: nat, k: nat)
    requires
        plain_text(s),
        0 <= i <= s.len(),
    ensures
        helper_from(s, i, p, b, k) == Ok::<Option<(int, super::iterators::CallView)>, char>(None),
    decreases s.len() - i,
{
    if i < s.len() {
        lemma_no_skip(s, i, true);
        lemma_helper_plain(s, i + 1, p + 1, b, k);
        lemma_helper_plain(s, i + 1, dec(p), b, k);
        lemma_helper_plain(s, i + 1, p, b, k + 1);
        lemma_helper_plain(s, i + 1, p, b, dec(k));
        lemma_helper_plain(s, i + 1, p, b + 1, k);
        lemma_helper_plain(s, i + 1, p, dec(b), k);
        lemma_helper_plain(s, i + 1, p, b, k);
    }
}

proof fn lemma_iter_plain(s: Seq<char>, i: int)
    requires
        plain_text(s),
        0 <= i <= s.len(),
    ensures
        iter_from(s, i) == Ok::<Seq<char>, char>(s.subrange(i, s.len() as int)),
    decreases s.len() - i,
{
    if i < s.len() {
        lemma_no_skip(s, i, true);
        lemma_helper_plain(s, i, 0, 0, 0);
        assert(chain_spec(s, i) == Ok::<Option<(int, Seq<char>)>, char>(None));
        lemma_iter_plain(s, i + 1);
        assert(seq![s[i]] + s.subrange(i + 1, s.len() as int) =~= s.subrange(i, s.len() as int));
    } else {
        assert(s.subrange(i, s.len() as int) =~= Seq::<char>::empty());
    }
}

proof fn lemma_index_plain(s: Seq<char>, i: int)
    requires
        plain_text(s),
        0 <= i <= s.len(),
    ensures
        index_assign_from(s, i) == Ok::<Seq<char>, char>(s.subrange(i, s.len() as int)),
    decreases s.len() - i,
{
    if i < s.len() {
        lemma_no_skip(s, i, true);
        if is_ident_start(s[i]) {
            let name_end = identifier_end(s, i);
            lemma_identifier_end_bounds(s, i + 1);
            assert(name_end == identifier_end(s, i + 1));
            let open = skip_ws(s, name_end);
            lemma_skip_ws_bounds(s, name_end);
            if open < s.len() {
                assert(!special(s[open]));
            }
            assert(index_assignment(s, i, name_end) == Ok::<Option<(Seq<char>, int)>, char>(None));
            lemma_index_plain(s, name_end);
            assert(s.subrange(i, name_end) + s.subrange(name_end, s.len() as int) =~= s.subrange(
                i,
                s.len() as int,
            ));
        } else {
            lemma_index_plain(s, i + 1);
            assert(seq![s[i]] + s.subrange(i + 1, s.len() as int) =~= s.subrange(i, s.len() as int));
        }
    } else {
        assert(s.subrange(i, s.len() as int) =~= Seq::<char>::empty());
    }
}

proof fn lemma_results_plain(s: Seq<char>, i: int)
    requires
        plain_text(s),
        0 <= i <= s.len(),
    ensures
        result_functions_from(s, i) == Ok::<Seq<char>, char>(s.subrange(i, s.len() as int)),
    decreases s.len() - i,
{
    if i < s.len() {
        lemma_find_char_bounds(s, '{', i);
        if find_char(s, '{', i) is Some {
            let j = find_char(s, '{', i).unwrap();
            assert(!special(s[j]));
        }
        lemma_results_plain(s, i + 1);
        assert(seq![s[i]] + s.subrange(i + 1, s.len() as int) =~= s.subrange(i, s.len() as int));
    } else {
        assert(s.subrange(i, s.len() as int) =~= Seq::<char>::empty());
    }
}

proof fn lemma_word_plain(s: Seq<char>, i: int)
    requires
        plain_text(s),
        0 <= i <= s.len(),
    ensures
        rewrite_word_spec(s, "string"@, "String"@, i) == s.subrange(i, s.len() as int),
    decreases s.len() - i,
{
    reveal_strlit("string");
    if i < s.len() {
        assert(!keyword_at(s, i, "string"@));
        lemma_word_plain(s, i + 1);
        assert(seq![s[i]] + s.subrange(i + 1, s.len() as int) =~= s.subrange(i, s.len() as int));
    } else {
        assert(s.subrange(i, s.len() as int) =~= Seq::<char>::empty());
    }
}

/// Replacing a text that starts with a character absent from `s` changes nothing.
proof fn lemma_replace_absent(s: Seq<char>, from: Seq<char>, to: Seq<char>)
    requires
        from.len() > 0,
        forall|i: int| 0 <= i < s.len() ==> s[i] != from[0],
    ensures
        replace_all(s, from, to) == s,
    decreases s.len(),
{
    if s.len() > 0 {
        assert(!starts_with(s, from)) by {
            if from.len() <= s.len() {
                assert(s.subrange(0, from.len() as int)[0] == s[0]);
            }
        }
        let rest = s.subrange(1, s.len() as int);
        assert forall|i: int| 0 <= i < rest.len() implies rest[i] != from[0] by {
            assert(rest[i] == s[i + 1]);
        }
        lemma_replace_absent(rest, from, to);
        assert(seq![s[0]] + rest =~= s);
    }
}

/// Text with nothing to rewrite passes through the pipeline unchanged: a text with no quote,
/// apostrophe, slash, opening square bracket or brace, colon, dot or carriage return and no
/// whole word `string` is its own translation, wherever the `String` binding and static
/// patterns find no match in it.
pub proof fn lemma_plain_text_unchanged(s: Seq<char>)
    requires
        plain_text(s),
        regex_capture_spans(STRING_BINDING_PATTERN@, s) == Some(Seq::<Seq<Option<(int, int)>>>::empty()),
        regex_capture_spans(STATIC_STRING_PATTERN@, s) == Some(Seq::<Seq<Option<(int, int)>>>::empty()),
    ensures
        transpiled(s) == Ok::<Seq<char>, crate::transpiler::error::TranspileError>(s),
{
    reveal_strlit("\r\n");
    reveal_strlit(".view()");
    assert(s.subrange(0, s.len() as int) =~= s);
    lemma_replace_absent(s, "\r\n"@, "\n"@);
    lemma_returns_plain(s, 0);
    lemma_word_plain(s, 0);
    lemma_replace_absent(s, ".view()"@, ".as_str()"@);
    lemma_literals_plain(s, 0);
    lemma_iter_plain(s, 0);
    lemma_index_plain(s, 0);
    assert(replaced(BindingRule::Binding, s, Seq::<Seq<Option<(int, int)>>>::empty()) == s);
    assert(replaced(BindingRule::Static, s, Seq::<Seq<Option<(int, int)>>>::empty()) == s);
    lemma_results_plain(s, 0);
}

} // verus!
