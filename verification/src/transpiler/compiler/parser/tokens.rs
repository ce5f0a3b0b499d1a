//! The token tests the grammar is built from.
use crate::text::str_eq;
use crate::transpiler::compiler::lexer::{Token, TokenKind, TokenView, token_views};
pub use crate::transpiler::compiler::lexer::tokens_wf;
use vstd::prelude::*;

verus! {

/// The views of a slice of tokens.
pub open spec fn tv(t: &[Token]) -> Seq<TokenView> {
    token_views(t@)
}

/// A token of the given kind stands at `p`.
pub open spec fn kind_at(t: Seq<TokenView>, p: int, kind: TokenKind) -> bool {
    0 <= p < t.len() && t[p].kind == kind
}

/// A token with the given text stands at `p` (any kind): what `punct` matches.
pub open spec fn text_at(t: Seq<TokenView>, p: int, text: Seq<char>) -> bool {
    0 <= p < t.len() && t[p].text == text
}

/// The identifier `word` stands at `p`: what `keyword` matches.
pub open spec fn keyword_at(t: Seq<TokenView>, p: int, word: Seq<char>) -> bool {
    kind_at(t, p, TokenKind::Ident) && text_at(t, p, word)
}

pub fn is_kind(t: &[Token], p: usize, kind: TokenKind) -> (b: bool)
    ensures
        b == kind_at(tv(t), p as int, kind),
{
    p < t.len() && t[p].kind == kind
}

pub fn is_text(t: &[Token], p: usize, text: &str) -> (b: bool)
    ensures
        b == text_at(tv(t), p as int, text@),
{
    p < t.len() && str_eq(t[p].text.as_str(), text)
}

pub fn is_keyword(t: &[Token], p: usize, word: &str) -> (b: bool)
    ensures
        b == keyword_at(tv(t), p as int, word@),
{
    is_kind(t, p, TokenKind::Ident) && is_text(t, p, word)
}

} // verus!
