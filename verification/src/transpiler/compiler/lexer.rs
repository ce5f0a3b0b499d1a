//! The lexer: source text to tokens, by longest match.
//!
//! At each position the longest token wins; a fixed token (`=>`, `->`, a delimiter) beats a
//! run of punctuation of the same length, and a comment beats punctuation. Whitespace out of
//! ` \t\r\n\x0c` and comments are dropped.
use crate::text::{
    chars_of, is_ascii_digit, is_digit, is_ident_continue, is_ident_start, is_identifier_continue,
    is_identifier_start, is_whitespace, is_ws, string_of_range,
};
use crate::transpiler::error::{Span, TranspileError};
use vstd::prelude::*;

verus! {

#[derive(Clone, Copy, Debug, PartialEq, Eq, Structural)]
pub enum TokenKind {
    OpenParen,
    CloseParen,
    OpenBracket,
    CloseBracket,
    OpenBrace,
    CloseBrace,
    Comma,
    Semi,
    Colon,
    Dot,
    Eq,
    Pipe,
    Ampersand,
    Bang,
    FatArrow,
    ThinArrow,
    String,
    Char,
    Lifetime,
    Number,
    Ident,
    LineComment,
    BlockComment,
    Punct,
}

#[derive(Clone, Debug)]
pub struct Token {
    pub kind: TokenKind,
    pub text: String,
    pub span: Span,
}

/// A token as the contracts see it.
pub struct TokenView {
    pub kind: TokenKind,
    pub text: Seq<char>,
    pub start: int,
    pub end: int,
}

impl View for Token {
    type V = TokenView;

    open spec fn view(&self) -> TokenView {
        TokenView {
            kind: self.kind,
            text: self.text@,
            start: self.span.start as int,
            end: self.span.end as int,
        }
    }
}

/// The views of a sequence of tokens.
pub open spec fn token_views(tokens: Seq<Token>) -> Seq<TokenView> {
    tokens.map_values(|t: Token| t@)
}

/// Every string token holds at least its two quotes, and positions inside it fit in a
/// `usize`: what the lexer produces.
pub open spec fn tokens_wf(t: Seq<TokenView>) -> bool {
    forall|i: int|
        0 <= i < t.len() && (#[trigger] t[i]).kind == TokenKind::String ==> t[i].text.len() >= 2
            && t[i].start + t[i].text.len() <= usize::MAX && 0 <= t[i].start
}

/// Characters that separate tokens and are dropped.
pub open spec fn is_skip(c: char) -> bool {
    c == ' ' || c == '\t' || c == '\r' || c == '\n' || c == '\u{c}'
}

/// Characters that punctuation runs never contain.
pub open spec fn is_reserved(c: char) -> bool {
    c == '"' || c == '\'' || c == '(' || c == ')' || c == '[' || c == ']' || c == '{' || c == '}'
        || c == '.' || c == ',' || c == ';' || c == ':' || c == '=' || c == '|' || c == '&' || c
        == '!'
}

/// Characters of a punctuation run.
pub open spec fn is_punct_char(c: char) -> bool {
    !is_ws(c) && !is_ident_continue(c) && !is_reserved(c)
}

/// Characters that continue a number.
pub open spec fn is_number_continue(c: char) -> bool {
    is_ident_continue(c) || c == '.'
}

/// The end of the longest run of identifier characters from `i`.
pub open spec fn ident_run_end(s: Seq<char>, i: int) -> int
    decreases s.len() - i,
{
    if 0 <= i < s.len() && is_ident_continue(s[i]) {
        ident_run_end(s, i + 1)
    } else {
        i
    }
}

/// The end of the longest run of number characters from `i`.
pub open spec fn number_run_end(s: Seq<char>, i: int) -> int
    decreases s.len() - i,
{
    if 0 <= i < s.len() && is_number_continue(s[i]) {
        number_run_end(s, i + 1)
    } else {
        i
    }
}

/// The end of the longest run of punctuation characters from `i`.
pub open spec fn punct_run_end(s: Seq<char>, i: int) -> int
    decreases s.len() - i,
{
    if 0 <= i < s.len() && is_punct_char(s[i]) {
        punct_run_end(s, i + 1)
    } else {
        i
    }
}

/// The position of the first line break at or after `i`, or the end of the text.
pub open spec fn line_end(s: Seq<char>, i: int) -> int
    decreases s.len() - i,
{
    if 0 <= i < s.len() && s[i] != '\n' {
        line_end(s, i + 1)
    } else if i < 0 {
        0
    } else {
        i
    }
}

/// The end of a block comment whose body starts at `i`: the body is read as `[^*]` or `*`
/// followed by anything but `/`, until `*/`; `after_star` holds when the previous character
/// was a `*` that may close the comment.
pub open spec fn block_comment_end(s: Seq<char>, i: int, after_star: bool) -> Option<int>
    decreases s.len() - i,
{
    if i < 0 || i >= s.len() {
        None
    } else if after_star {
        if s[i] == '/' {
            Some(i + 1)
        } else {
            block_comment_end(s, i + 1, false)
        }
    } else {
        block_comment_end(s, i + 1, s[i] == '*')
    }
}

/// The end of a string literal whose body starts at `i` (after the opening quote): the body
/// holds characters other than `\` and `"`, or `\` followed by a character other than a
/// line break.
pub open spec fn string_end(s: Seq<char>, i: int) -> Option<int>
    decreases s.len() - i,
{
    if i < 0 || i >= s.len() {
        None
    } else if s[i] == '"' {
        Some(i + 1)
    } else if s[i] == '\\' {
        if i + 1 < s.len() && s[i + 1] != '\n' {
            string_end(s, i + 2)
        } else {
            None
        }
    } else {
        string_end(s, i + 1)
    }
}

/// The end of a character literal opened at `i`: one character other than `'` and `\`, or
/// `\` and a character other than a line break, then `'`.
pub open spec fn char_literal_end(s: Seq<char>, i: int) -> Option<int> {
    if 0 <= i && i + 2 < s.len() && s[i + 1] != '\'' && s[i + 1] != '\\' && s[i + 2] == '\'' {
        Some(i + 3)
    } else if 0 <= i && i + 3 < s.len() && s[i + 1] == '\\' && s[i + 2] != '\n' && s[i + 3]
        == '\'' {
        Some(i + 4)
    } else {
        None
    }
}

/// The fixed one-character token that `c` stands for, if any.
pub open spec fn single_kind(c: char) -> Option<TokenKind> {
    if c == '(' {
        Some(TokenKind::OpenParen)
    } else if c == ')' {
        Some(TokenKind::CloseParen)
    } else if c == '[' {
        Some(TokenKind::OpenBracket)
    } else if c == ']' {
        Some(TokenKind::CloseBracket)
    } else if c == '{' {
        Some(TokenKind::OpenBrace)
    } else if c == '}' {
        Some(TokenKind::CloseBrace)
    } else if c == ',' {
        Some(TokenKind::Comma)
    } else if c == ';' {
        Some(TokenKind::Semi)
    } else if c == ':' {
        Some(TokenKind::Colon)
    } else if c == '.' {
        Some(TokenKind::Dot)
    } else if c == '|' {
        Some(TokenKind::Pipe)
    } else if c == '&' {
        Some(TokenKind::Ampersand)
    } else if c == '!' {
        Some(TokenKind::Bang)
    } else {
        None
    }
}

/// The two-character operators that are one token: `==`, `!=`, `<=`, `>=`, `&&`, `||` and
/// the path separator `::`.
pub open spec fn is_operator_pair(a: char, b: char) -> bool {
    ||| a == '=' && b == '='
    ||| a == '!' && b == '='
    ||| (a == '<' || a == '>') && b == '='
    ||| a == '&' && b == '&'
    ||| a == '|' && b == '|'
    ||| a == ':' && b == ':'
}

/// The kind and end of the longest token that starts at `i`, `None` when no token starts
/// there.
pub open spec fn scan_token(s: Seq<char>, i: int) -> Option<(TokenKind, int)> {
    if i < 0 || i >= s.len() {
        None
    } else {
        let c = s[i];
        let next_is = |d: char| i + 1 < s.len() && s[i + 1] == d;
        if i + 1 < s.len() && is_operator_pair(c, s[i + 1]) {
            Some((TokenKind::Punct, i + 2))
        } else if single_kind(c) is Some {
            Some((single_kind(c).unwrap(), i + 1))
        } else if c == '=' {
            if next_is('>') {
                Some((TokenKind::FatArrow, i + 2))
            } else {
                Some((TokenKind::Eq, i + 1))
            }
        } else if c == '"' {
            match string_end(s, i + 1) {
                Some(end) => Some((TokenKind::String, end)),
                None => None,
            }
        } else if c == '\'' {
            match char_literal_end(s, i) {
                Some(end) => Some((TokenKind::Char, end)),
                None => if i + 1 < s.len() && is_ident_start(s[i + 1]) {
                    Some((TokenKind::Lifetime, ident_run_end(s, i + 1)))
                } else {
                    None
                },
            }
        } else if is_ascii_digit(c) {
            Some((TokenKind::Number, number_run_end(s, i + 1)))
        } else if is_ident_start(c) {
            Some((TokenKind::Ident, ident_run_end(s, i + 1)))
        } else if c == '/' && next_is('/') {
            Some((TokenKind::LineComment, line_end(s, i)))
        } else if c == '/' && next_is('*') && block_comment_end(s, i + 2, false) is Some
            && block_comment_end(s, i + 2, false).unwrap() >= punct_run_end(s, i) {
            Some((TokenKind::BlockComment, block_comment_end(s, i + 2, false).unwrap()))
        } else if c == '-' && next_is('>') && punct_run_end(s, i) <= i + 2 {
            Some((TokenKind::ThinArrow, i + 2))
        } else if is_punct_char(c) {
            Some((TokenKind::Punct, punct_run_end(s, i)))
        } else {
            None
        }
    }
}

pub open spec fn is_comment(kind: TokenKind) -> bool {
    kind == TokenKind::LineComment || kind == TokenKind::BlockComment
}

proof fn lemma_runs_advance(s: Seq<char>, i: int)
    requires
        0 <= i <= s.len(),
    ensures
        i <= ident_run_end(s, i) <= s.len(),
        i <= number_run_end(s, i) <= s.len(),
        i <= punct_run_end(s, i) <= s.len(),
        i <= line_end(s, i) <= s.len(),
    decreases s.len() - i,
{
    if i < s.len() {
        lemma_runs_advance(s, i + 1);
    }
}

proof fn lemma_block_comment_end(s: Seq<char>, i: int, after_star: bool)
    ensures
        block_comment_end(s, i, after_star) matches Some(end) ==> i < end <= s.len(),
    decreases s.len() - i,
{
    if 0 <= i < s.len() {
        lemma_block_comment_end(s, i + 1, false);
        lemma_block_comment_end(s, i + 1, s[i] == '*');
    }
}

proof fn lemma_string_end(s: Seq<char>, i: int)
    ensures
        string_end(s, i) matches Some(end) ==> i < end <= s.len(),
    decreases s.len() - i,
{
    if 0 <= i < s.len() {
        lemma_string_end(s, i + 1);
        if i + 2 <= s.len() {
            lemma_string_end(s, i + 2);
        }
    }
}

/// A token that is found ends after its start and within the text.
pub proof fn lemma_scan_token_advances(s: Seq<char>, i: int)
    ensures
        scan_token(s, i) matches Some((_, end)) ==> i < end <= s.len(),
{
    if 0 <= i < s.len() {
        lemma_runs_advance(s, i);
        lemma_runs_advance(s, i + 1);
        lemma_string_end(s, i + 1);
        lemma_block_comment_end(s, i + 2, false);
        if i + 1 < s.len() {
            lemma_runs_advance(s, i + 2);
        }
    }
}

/// The tokens of `s` from position `i` on, or the position of the first character that
/// starts no token.
pub open spec fn lex_from(s: Seq<char>, i: int) -> Result<Seq<TokenView>, int>
    decreases s.len() - i,
{
    if i < 0 || i >= s.len() {
        Ok(seq![])
    } else if is_skip(s[i]) {
        lex_from(s, i + 1)
    } else {
        match scan_token(s, i) {
            None => Err(i),
            Some((kind, end)) => {
                proof {
                    lemma_scan_token_advances(s, i);
                }
                if is_comment(kind) {
                    lex_from(s, end)
                } else {
                    match lex_from(s, end) {
                        Ok(rest) => Ok(
                            seq![TokenView { kind, text: s.subrange(i, end), start: i, end }]
                                + rest,
                        ),
                        Err(at) => Err(at),
                    }
                }
            },
        }
    }
}

/// The tokens of a whole text.
pub open spec fn lex_spec(s: Seq<char>) -> Result<Seq<TokenView>, int> {
    lex_from(s, 0)
}

fn ident_run(s: &[char], i: usize) -> (end: usize)
    requires
        i <= s@.len(),
    ensures
        end == ident_run_end(s@, i as int),
{
    let mut j = i;
    while j < s.len() && is_identifier_continue(s[j])
        invariant
            i <= j <= s@.len(),
            ident_run_end(s@, i as int) == ident_run_end(s@, j as int),
        decreases s@.len() - j,
    {
        j += 1;
    }
    j
}

fn number_run(s: &[char], i: usize) -> (end: usize)
    requires
        i <= s@.len(),
    ensures
        end == number_run_end(s@, i as int),
{
    let mut j = i;
    while j < s.len() && (is_identifier_continue(s[j]) || s[j] == '.')
        invariant
            i <= j <= s@.len(),
            number_run_end(s@, i as int) == number_run_end(s@, j as int),
        decreases s@.len() - j,
    {
        j += 1;
    }
    j
}

fn reserved(c: char) -> (b: bool)
    ensures
        b == is_reserved(c),
{
    c == '"' || c == '\'' || c == '(' || c == ')' || c == '[' || c == ']' || c == '{' || c == '}'
        || c == '.' || c == ',' || c == ';' || c == ':' || c == '=' || c == '|' || c == '&' || c
        == '!'
}

fn punct_char(c: char) -> (b: bool)
    ensures
        b == is_punct_char(c),
{
    !is_whitespace(c) && !is_identifier_continue(c) && !reserved(c)
}

fn punct_run(s: &[char], i: usize) -> (end: usize)
    requires
        i <= s@.len(),
    ensures
        end == punct_run_end(s@, i as int),
{
    let mut j = i;
    while j < s.len() && punct_char(s[j])
        invariant
            i <= j <= s@.len(),
            punct_run_end(s@, i as int) == punct_run_end(s@, j as int),
        decreases s@.len() - j,
    {
        j += 1;
    }
    j
}

fn find_line_end(s: &[char], i: usize) -> (end: usize)
    requires
        i <= s@.len(),
    ensures
        end == line_end(s@, i as int),
{
    let mut j = i;
    while j < s.len() && s[j] != '\n'
        invariant
            i <= j <= s@.len(),
            line_end(s@, i as int) == line_end(s@, j as int),
        decreases s@.len() - j,
    {
        j += 1;
    }
    j
}

fn find_block_comment_end(s: &[char], i: usize) -> (end: Option<usize>)
    requires
        i <= s@.len(),
    ensures
        end matches Some(e) ==> block_comment_end(s@, i as int, false) == Some(e as int),
        end is None ==> block_comment_end(s@, i as int, false) is None,
{
    let mut j = i;
    let mut after_star = false;
    while j < s.len()
        invariant
            i <= j <= s@.len(),
            block_comment_end(s@, i as int, false) == block_comment_end(s@, j as int, after_star),
        decreases s@.len() - j,
    {
        if after_star && s[j] == '/' {
            return Some(j + 1);
        }
        after_star = !after_star && s[j] == '*';
        j += 1;
    }
    None
}

fn find_string_end(s: &[char], i: usize) -> (end: Option<usize>)
    requires
        i <= s@.len(),
    ensures
        end matches Some(e) ==> string_end(s@, i as int) == Some(e as int),
        end is None ==> string_end(s@, i as int) is None,
{
    let mut j = i;
    while j < s.len()
        invariant
            i <= j <= s@.len(),
            string_end(s@, i as int) == string_end(s@, j as int),
        decreases s@.len() - j,
    {
        if s[j] == '"' {
            return Some(j + 1);
        } else if s[j] == '\\' {
            if j + 1 < s.len() && s[j + 1] != '\n' {
                j += 2;
            } else {
                return None;
            }
        } else {
            j += 1;
        }
    }
    None
}

fn single(c: char) -> (kind: Option<TokenKind>)
    ensures
        kind == single_kind(c),
{
    if c == '(' {
        Some(TokenKind::OpenParen)
    } else if c == ')' {
        Some(TokenKind::CloseParen)
    } else if c == '[' {
        Some(TokenKind::OpenBracket)
    } else if c == ']' {
        Some(TokenKind::CloseBracket)
    } else if c == '{' {
        Some(TokenKind::OpenBrace)
    } else if c == '}' {
        Some(TokenKind::CloseBrace)
    } else if c == ',' {
        Some(TokenKind::Comma)
    } else if c == ';' {
        Some(TokenKind::Semi)
    } else if c == ':' {
        Some(TokenKind::Colon)
    } else if c == '.' {
        Some(TokenKind::Dot)
    } else if c == '|' {
        Some(TokenKind::Pipe)
    } else if c == '&' {
        Some(TokenKind::Ampersand)
    } else if c == '!' {
        Some(TokenKind::Bang)
    } else {
        None
    }
}

/// The longest token at `i`.
fn next_token(s: &[char], i: usize) -> (found: Option<(TokenKind, usize)>)
    requires
        i < s@.len(),
    ensures
        found matches Some((kind, end)) ==> scan_token(s@, i as int) == Some((kind, end as int)),
        found is None ==> scan_token(s@, i as int) is None,
{
    let c = s[i];
    let next = if i + 1 < s.len() {
        Some(s[i + 1])
    } else {
        None
    };
    if i + 1 < s.len() {
        let d = s[i + 1];
        if (c == '=' && d == '=') || (c == '!' && d == '=') || ((c == '<' || c == '>') && d == '=')
            || (c == '&' && d == '&') || (c == '|' && d == '|') || (c == ':' && d == ':') {
            return Some((TokenKind::Punct, i + 2));
        }
    }
    if let Some(kind) = single(c) {
        return Some((kind, i + 1));
    }
    if c == '=' {
        if next == Some('>') {
            return Some((TokenKind::FatArrow, i + 2));
        }
        return Some((TokenKind::Eq, i + 1));
    }
    if c == '"' {
        return match find_string_end(s, i + 1) {
            Some(end) => Some((TokenKind::String, end)),
            None => None,
        };
    }
    if c == '\'' {
        if s.len() - i > 2 && s[i + 1] != '\'' && s[i + 1] != '\\' && s[i + 2] == '\'' {
            return Some((TokenKind::Char, i + 3));
        }
        if s.len() - i > 3 && s[i + 1] == '\\' && s[i + 2] != '\n' && s[i + 3] == '\'' {
            return Some((TokenKind::Char, i + 4));
        }
        if i + 1 < s.len() && is_identifier_start(s[i + 1]) {
            return Some((TokenKind::Lifetime, ident_run(s, i + 1)));
        }
        return None;
    }
    if is_digit(c) {
        return Some((TokenKind::Number, number_run(s, i + 1)));
    }
    if is_identifier_start(c) {
        return Some((TokenKind::Ident, ident_run(s, i + 1)));
    }
    if c == '/' && next == Some('/') {
        return Some((TokenKind::LineComment, find_line_end(s, i)));
    }
    let punct_end = punct_run(s, i);
    if c == '/' && next == Some('*') {
        if let Some(end) = find_block_comment_end(s, i + 2) {
            if end >= punct_end {
                return Some((TokenKind::BlockComment, end));
            }
        }
    }
    if c == '-' && next == Some('>') && punct_end <= i + 2 {
        return Some((TokenKind::ThinArrow, i + 2));
    }
    if punct_char(c) {
        return Some((TokenKind::Punct, punct_end));
    }
    None
}

/// The message of the error for a character that starts no token.
pub open spec fn unexpected_message(c: char) -> Seq<char> {
    "unexpected token `"@ + seq![c] + "`"@
}

/// Each token lies inside the first `len` characters, and its text spans its positions.
pub open spec fn tokens_within(tokens: Seq<Token>, len: int) -> bool {
    forall|k: int|
        0 <= k < tokens.len() ==> (#[trigger] tokens[k]).span.start <= tokens[k].span.end <= len
            && tokens[k].text@.len() == tokens[k].span.end - tokens[k].span.start
}

/// Splits a source text into tokens, dropping whitespace and comments.
///
/// On success the tokens are those of `lex_spec`; a character that starts no token gives a
/// diagnostic located on that one character.
pub fn lex(source: &str) -> (result: Result<Vec<Token>, TranspileError>)
    ensures
        result is Ok <==> lex_spec(source@) is Ok,
        result matches Ok(tokens) ==> lex_spec(source@) == Ok::<Seq<TokenView>, int>(
            token_views(tokens@),
        ),
        result matches Ok(tokens) ==> tokens_wf(token_views(tokens@)),
        result matches Ok(tokens) ==> tokens_within(tokens@, source@.len() as int),
        result matches Err(error) ==> lex_spec(source@) matches Err(at) && error == (
        TranspileError::Diagnostic {
            message: error->message,
            span: Span { start: at as usize, end: (at + 1) as usize },
        }) && error->message@ == unexpected_message(source@[at]),
{
    let s = chars_of(source);
    lex_chars(&s)
}

/// `lex` on a sequence of characters.
pub fn lex_chars(s: &Vec<char>) -> (result: Result<Vec<Token>, TranspileError>)
    ensures
        result is Ok <==> lex_spec(s@) is Ok,
        result matches Ok(tokens) ==> lex_spec(s@) == Ok::<Seq<TokenView>, int>(
            token_views(tokens@),
        ),
        result matches Ok(tokens) ==> tokens_wf(token_views(tokens@)),
        result matches Ok(tokens) ==> tokens_within(tokens@, s@.len() as int),
        result matches Err(error) ==> lex_spec(s@) matches Err(at) && error == (
        TranspileError::Diagnostic {
            message: error->message,
            span: Span { start: at as usize, end: (at + 1) as usize },
        }) && error->message@ == unexpected_message(s@[at]),
{
    let mut tokens: Vec<Token> = Vec::new();
    let mut i: usize = 0;
    while i < s.len()
        invariant
            i <= s@.len(),
            tokens_wf(token_views(tokens@)),
            tokens_within(tokens@, i as int),
            lex_spec(s@) == (match lex_from(s@, i as int) {
                Ok(rest) => Ok(token_views(tokens@) + rest),
                Err(at) => Err(at),
            }),
        decreases s@.len() - i,
    {
        let c = s[i];
        if c == ' ' || c == '\t' || c == '\r' || c == '\n' || c == '\u{c}' {
            assert(lex_from(s@, i as int) == lex_from(s@, i + 1));
            i += 1;
            continue;
        }
        match next_token(s, i) {
            None => {
                let mut message = String::from_str("unexpected token `");
                message.push(c);
                message.append("`");
                return Err(TranspileError::Diagnostic { message, span: Span { start: i, end: i + 1 } });
            },
            Some((kind, end)) => {
                proof {
                    lemma_scan_token_advances(s@, i as int);
                    lemma_string_end(s@, i + 1);
                }
                if kind != TokenKind::LineComment && kind != TokenKind::BlockComment {
                    let token = Token {
                        kind,
                        text: string_of_range(s, i, end),
                        span: Span { start: i, end },
                    };
                    let ghost before = tokens@;
                    tokens.push(token);
                    assert(token_views(tokens@) == token_views(before) + seq![token@]);
                    proof {
                        match lex_from(s@, end as int) {
                            Ok(rest) => {
                                assert(token_views(tokens@) + rest == token_views(before) + (
                                seq![token@] + rest));
                            },
                            Err(_) => {},
                        }
                    }
                } else {
                    assert(lex_from(s@, i as int) == lex_from(s@, end as int));
                }
                i = end;
            },
        }
    }
    assert(token_views(tokens@) + seq![] == token_views(tokens@));
    Ok(tokens)
}

} // verus!
