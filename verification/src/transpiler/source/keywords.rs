//! Whole-word replacement in source text.
use crate::text::{
    chars_of, is_ident_continue, is_identifier_continue, push_all, push_range, string_of,
};
use super::scan::{identifier_end, lemma_skip_bounds, skip_at, skip_quoted};
use vstd::prelude::*;

verus! {

/// `keyword` stands at `i` as a whole word: no identifier character right before or right
/// after it.
pub open spec fn keyword_at(s: Seq<char>, i: int, keyword: Seq<char>) -> bool {
    &&& 0 <= i
    &&& i + keyword.len() <= s.len()
    &&& s.subrange(i, i + keyword.len()) == keyword
    &&& (i == 0 || !is_ident_continue(s[i - 1]))
    &&& (i + keyword.len() >= s.len() || !is_ident_continue(s[i + keyword.len()]))
}

/// The text from `i` on with every whole-word `from` replaced by `to`, scanning from the
/// left; string and character literals and comments are copied as they are, and one that is
/// never closed is copied to the end.
pub open spec fn rewrite_word_spec(s: Seq<char>, from: Seq<char>, to: Seq<char>, i: int) -> Seq<char>
    decreases s.len() - i,
{
    if i < 0 || i >= s.len() || from.len() == 0 {
        seq![]
    } else {
        match skip_at(s, i, true) {
            Some(Ok(e)) => if i < e <= s.len() {
                s.subrange(i, e) + rewrite_word_spec(s, from, to, e)
            } else {
                seq![]
            },
            Some(Err(_)) => s.subrange(i, s.len() as int),
            None => if keyword_at(s, i, from) {
                to + rewrite_word_spec(s, from, to, i + from.len())
            } else {
                seq![s[i]] + rewrite_word_spec(s, from, to, i + 1)
            },
        }
    }
}

/// Whether `keyword` stands at `index` as a whole word.
pub fn starts_with_keyword(source: &[char], index: usize, keyword: &[char]) -> (b: bool)
    requires
        index <= source@.len(),
    ensures
        b == keyword_at(source@, index as int, keyword@),
{
    if keyword.len() > source.len() - index {
        return false;
    }
    if !crate::text::starts_with_at(source, index, keyword) {
        assert(source@.subrange(index as int, index + keyword@.len()) != keyword@) by {
            assert(!crate::text::occurs_at(source@, index as int, keyword@));
        }
        return false;
    }
    let before_ok = index == 0 || !is_identifier_continue(source[index - 1]);
    let end = index + keyword.len();
    let after_ok = end >= source.len() || !is_identifier_continue(source[end]);
    before_ok && after_ok
}

/// Replaces every whole-word `from` by `to` (`string` by `String`, for one) outside string
/// and character literals and comments, scanning from the left; an empty `from` would never
/// advance.
pub fn rewrite_word(source: &str, from: &str, to: &str) -> (r: String)
    requires
        from@.len() > 0,
    ensures
        r@ == rewrite_word_spec(source@, from@, to@, 0),
{
    let s = chars_of(source);
    let f = chars_of(from);
    let t = chars_of(to);
    let out = rewrite_word_chars(&s, &f, &t);
    string_of(&out)
}

/// `rewrite_word` on characters.
pub fn rewrite_word_chars(s: &[char], f: &[char], t: &[char]) -> (out: Vec<char>)
    requires
        f@.len() > 0,
    ensures
        out@ == rewrite_word_spec(s@, f@, t@, 0),
{
    let mut out: Vec<char> = Vec::new();
    let mut index: usize = 0;
    while index < s.len()
        invariant
            index <= s@.len(),
            f@.len() > 0,
            rewrite_word_spec(s@, f@, t@, 0) == out@ + rewrite_word_spec(s@, f@, t@, index as int),
        decreases s@.len() - index,
    {
        let ghost before = out@;
        match skip_quoted(s, index, true) {
            Some(Ok(e)) => {
                push_range(&mut out, s, index, e);
                assert(out@ + rewrite_word_spec(s@, f@, t@, e as int) =~= before + (s@.subrange(
                    index as int,
                    e as int,
                ) + rewrite_word_spec(s@, f@, t@, e as int)));
                index = e;
            },
            Some(Err(_)) => {
                push_range(&mut out, s, index, s.len());
                assert(out@ =~= before + rewrite_word_spec(s@, f@, t@, index as int));
                assert(out@ + Seq::<char>::empty() =~= out@);
                return out;
            },
            None => {
                if starts_with_keyword(s, index, f) {
                    push_all(&mut out, t);
                    assert(out@ + rewrite_word_spec(s@, f@, t@, index + f@.len()) =~= before + (t@
                        + rewrite_word_spec(s@, f@, t@, index + f@.len())));
                    index += f.len();
                } else {
                    out.push(s[index]);
                    assert(out@ + rewrite_word_spec(s@, f@, t@, index + 1) =~= before + (seq![
                        s@[index as int],
                    ] + rewrite_word_spec(s@, f@, t@, index + 1)));
                    index += 1;
                }
            },
        }
    }
    assert(out@ + Seq::<char>::empty() =~= out@);
    out
}

/// Replacing a word by one of the same length keeps the length of the text.
pub proof fn lemma_rewrite_word_len(s: Seq<char>, from: Seq<char>, to: Seq<char>, i: int)
    requires
        from.len() == to.len(),
        from.len() > 0,
        0 <= i <= s.len(),
    ensures
        rewrite_word_spec(s, from, to, i).len() == s.len() - i,
    decreases s.len() - i,
{
    if i < s.len() {
        lemma_skip_bounds(s, i, true);
        match skip_at(s, i, true) {
            Some(Ok(e)) => lemma_rewrite_word_len(s, from, to, e),
            Some(Err(_)) => {},
            None => if keyword_at(s, i, from) {
                lemma_rewrite_word_len(s, from, to, i + from.len());
            } else {
                lemma_rewrite_word_len(s, from, to, i + 1);
            },
        }
    }
}

/// The end of the identifier that starts at `start`.
pub fn scan_identifier(source: &[char], start: usize) -> (end: usize)
    requires
        start <= source@.len(),
    ensures
        start <= end <= source@.len(),
        forall|i: int| start <= i < end ==> is_ident_continue(#[trigger] source@[i]),
        end < source@.len() ==> !is_ident_continue(source@[end as int]),
        end as int == identifier_end(source@, start as int),
{
    let mut index = start;
    while index < source.len() && is_identifier_continue(source[index])
        invariant
            start <= index <= source@.len(),
            forall|i: int| start <= i < index ==> is_ident_continue(#[trigger] source@[i]),
            identifier_end(source@, start as int) == identifier_end(source@, index as int),
        decreases source@.len() - index,
    {
        index += 1;
    }
    index
}

} // verus!
