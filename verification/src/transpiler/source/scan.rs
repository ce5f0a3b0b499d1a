//! Scanners over source text: where a string, a character literal, a comment or a bracketed
//! group ends.
//!
//! Positions are character positions. Every scanner that can fail reports the delimiter it
//! was looking for the end of: `"` for a string, `'` for a character literal, `/` for a block
//! comment, or the opening bracket.
use crate::text::{is_whitespace, is_ws, is_ident_start, is_identifier_start};
use crate::project::fields::{find_char, lemma_find_char_bounds};
use vstd::prelude::*;

verus! {

/// The position after the quote `q` that closes a quoted text whose body starts at `i`; a
/// backslash skips the character after it. `None` when the text ends first.
pub open spec fn closing_quote(s: Seq<char>, i: int, q: char) -> Option<int>
    decreases s.len() + 1 - i,
{
    if i < 0 || i >= s.len() {
        None
    } else if s[i] == '\\' {
        closing_quote(s, i + 2, q)
    } else if s[i] == q {
        Some(i + 1)
    } else {
        closing_quote(s, i + 1, q)
    }
}

/// The end of the string literal that opens at `start`.
pub open spec fn string_end(s: Seq<char>, start: int) -> Option<int> {
    closing_quote(s, start + 1, '"')
}

/// The end of the character literal or lifetime that opens at `start`: a quote followed by
/// an identifier character is a lifetime and ends after that character.
pub open spec fn char_end(s: Seq<char>, start: int) -> Option<int> {
    if 0 <= start + 1 < s.len() && is_ident_start(s[start + 1]) {
        Some(start + 2)
    } else {
        closing_quote(s, start + 1, '\'')
    }
}

/// The end of the block comment whose body starts at `i`: after the first `*/`.
pub open spec fn block_comment_close(s: Seq<char>, i: int) -> Option<int>
    decreases s.len() - i,
{
    if i < 0 || i + 1 >= s.len() {
        None
    } else if s[i] == '*' && s[i + 1] == '/' {
        Some(i + 2)
    } else {
        block_comment_close(s, i + 1)
    }
}

/// The end of the block comment that opens at `start`.
pub open spec fn block_comment_end(s: Seq<char>, start: int) -> Option<int> {
    block_comment_close(s, start + 2)
}

/// The position of the first line break at or after `i`, or the end of the text.
pub open spec fn line_end(s: Seq<char>, i: int) -> int {
    match find_char(s, '\n', i) {
        Some(j) => j,
        None => s.len() as int,
    }
}

/// The result of a scanner that either ends at a position or misses a delimiter.
pub open spec fn ended(r: Option<int>, missing: char) -> Result<int, char> {
    match r {
        Some(e) => Ok(e),
        None => Err(missing),
    }
}

/// `s[i]` is `/` and `s[i + 1]` is `second`: `//` or `/*` starts at `i`.
pub open spec fn opens_comment(s: Seq<char>, i: int, second: char) -> bool {
    0 <= i && i + 1 < s.len() && s[i] == '/' && s[i + 1] == second
}

/// What starts at `i` and is copied through whole: a string, a character literal or, when
/// `comments` holds, a line or block comment. `None` when none of them starts there;
/// otherwise where it ends, or the delimiter that is never closed.
pub open spec fn skip_at(s: Seq<char>, i: int, comments: bool) -> Option<Result<int, char>> {
    if i < 0 || i >= s.len() {
        None
    } else if s[i] == '"' {
        Some(ended(string_end(s, i), '"'))
    } else if s[i] == '\'' {
        Some(ended(char_end(s, i), '\''))
    } else if comments && opens_comment(s, i, '/') {
        Some(Ok(line_end(s, i)))
    } else if comments && opens_comment(s, i, '*') {
        Some(ended(block_comment_end(s, i), '/'))
    } else {
        None
    }
}

pub proof fn lemma_closing_quote_bounds(s: Seq<char>, i: int, q: char)
    ensures
        closing_quote(s, i, q) matches Some(e) ==> i < e <= s.len(),
    decreases s.len() + 1 - i,
{
    if 0 <= i < s.len() {
        if s[i] == '\\' {
            lemma_closing_quote_bounds(s, i + 2, q);
        } else if s[i] != q {
            lemma_closing_quote_bounds(s, i + 1, q);
        }
    }
}

pub proof fn lemma_block_comment_bounds(s: Seq<char>, i: int)
    ensures
        block_comment_close(s, i) matches Some(e) ==> i < e <= s.len(),
    decreases s.len() - i,
{
    if 0 <= i && i + 1 < s.len() && !(s[i] == '*' && s[i + 1] == '/') {
        lemma_block_comment_bounds(s, i + 1);
    }
}

/// Whatever is skipped at `i` ends after `i` and inside the text.
pub proof fn lemma_skip_bounds(s: Seq<char>, i: int, comments: bool)
    ensures
        skip_at(s, i, comments) matches Some(Ok(e)) ==> i < e <= s.len(),
        skip_at(s, i, comments) is Some ==> 0 <= i < s.len() && (s[i] == '"' || s[i] == '\''
            || s[i] == '/'),
{
    if 0 <= i < s.len() {
        lemma_closing_quote_bounds(s, i + 1, '"');
        lemma_closing_quote_bounds(s, i + 1, '\'');
        lemma_block_comment_bounds(s, i + 2);
        lemma_find_char_bounds(s, '\n', i);
    }
}

/// The position after the quote `q` closing a quoted text whose body starts at `i`.
fn closing_quote_at(s: &[char], i: usize, q: char) -> (r: Option<usize>)
    requires
        i <= s@.len(),
    ensures
        r matches Some(e) ==> closing_quote(s@, i as int, q) == Some(e as int),
        r is None ==> closing_quote(s@, i as int, q) is None,
{
    let mut j = i;
    while j < s.len()
        invariant
            j <= s@.len(),
            closing_quote(s@, i as int, q) == closing_quote(s@, j as int, q),
        decreases s@.len() - j,
    {
        if s[j] == '\\' {
            if s.len() - j <= 2 {
                assert(closing_quote(s@, j + 2, q) is None);
                return None;
            }
            j += 2;
        } else if s[j] == q {
            return Some(j + 1);
        } else {
            j += 1;
        }
    }
    None
}

/// Where the string literal that opens at `start` ends.
pub fn scan_string(s: &[char], start: usize) -> (r: Option<usize>)
    requires
        start < s.len(),
    ensures
        r matches Some(e) ==> string_end(s@, start as int) == Some(e as int),
        r is None ==> string_end(s@, start as int) is None,
{
    closing_quote_at(s, start + 1, '"')
}

/// Where the character literal or lifetime that opens at `start` ends.
pub fn scan_char_or_lifetime(s: &[char], start: usize) -> (r: Option<usize>)
    requires
        start < s.len(),
    ensures
        r matches Some(e) ==> char_end(s@, start as int) == Some(e as int),
        r is None ==> char_end(s@, start as int) is None,
{
    if start + 1 < s.len() && is_identifier_start(s[start + 1]) {
        return Some(start + 2);
    }
    closing_quote_at(s, start + 1, '\'')
}

/// Where the block comment that opens at `start` ends.
pub fn scan_block_comment(s: &[char], start: usize) -> (r: Option<usize>)
    requires
        start + 1 < s.len(),
    ensures
        r matches Some(e) ==> block_comment_end(s@, start as int) == Some(e as int),
        r is None ==> block_comment_end(s@, start as int) is None,
{
    let mut j = start + 2;
    while j < s.len() && s.len() - j > 1
        invariant
            start + 2 <= j,
            block_comment_close(s@, start + 2) == block_comment_close(s@, j as int),
        decreases s@.len() - j,
    {
        if s[j] == '*' && s[j + 1] == '/' {
            return Some(j + 2);
        }
        j += 1;
    }
    None
}

/// The position of the first line break at or after `i`, or the end of the text.
pub fn line_comment_end(s: &[char], i: usize) -> (e: usize)
    requires
        i <= s@.len(),
    ensures
        e as int == line_end(s@, i as int),
{
    let mut j = i;
    while j < s.len()
        invariant
            i <= j <= s@.len(),
            find_char(s@, '\n', i as int) == find_char(s@, '\n', j as int),
        decreases s@.len() - j,
    {
        if s[j] == '\n' {
            return j;
        }
        j += 1;
    }
    j
}

/// What is skipped whole at `i`, if anything: see `skip_at`.
pub fn skip_quoted(s: &[char], i: usize, comments: bool) -> (r: Option<Result<usize, char>>)
    requires
        i < s@.len(),
    ensures
        r matches Some(Ok(e)) ==> skip_at(s@, i as int, comments) == Some(
            Ok::<int, char>(e as int),
        ) && i < e <= s@.len(),
        r matches Some(Err(c)) ==> skip_at(s@, i as int, comments) == Some(Err::<int, char>(c)),
        r is None ==> skip_at(s@, i as int, comments) is None,
{
    proof {
        lemma_skip_bounds(s@, i as int, comments);
    }
    let c = s[i];
    if c == '"' {
        match scan_string(s, i) {
            Some(e) => Some(Ok(e)),
            None => Some(Err('"')),
        }
    } else if c == '\'' {
        match scan_char_or_lifetime(s, i) {
            Some(e) => Some(Ok(e)),
            None => Some(Err('\'')),
        }
    } else if comments && c == '/' && s.len() - i > 1 && s[i + 1] == '/' {
        Some(Ok(line_comment_end(s, i)))
    } else if comments && c == '/' && s.len() - i > 1 && s[i + 1] == '*' {
        match scan_block_comment(s, i) {
            Some(e) => Some(Ok(e)),
            None => Some(Err('/')),
        }
    } else {
        None
    }
}

/// The end of the group that opens with `open` at the position where the scan started
/// (with `depth` groups open at `i`): after its matching `close`. Strings, character
/// literals and comments inside are skipped.
pub open spec fn matching_from(s: Seq<char>, i: int, open: char, close: char, depth: nat) -> Result<
    int,
    char,
>
    decreases s.len() - i,
{
    if i < 0 || i >= s.len() {
        Err(open)
    } else {
        match skip_at(s, i, true) {
            Some(Ok(e)) => if i < e <= s.len() {
                matching_from(s, e, open, close, depth)
            } else {
                Err(open)
            },
            Some(Err(c)) => Err(c),
            None => if s[i] == open {
                matching_from(s, i + 1, open, close, depth + 1)
            } else if s[i] == close {
                if depth <= 1 {
                    Ok(i + 1)
                } else {
                    matching_from(s, i + 1, open, close, (depth - 1) as nat)
                }
            } else {
                matching_from(s, i + 1, open, close, depth)
            },
        }
    }
}

pub proof fn lemma_matching_bounds(s: Seq<char>, i: int, open: char, close: char, depth: nat)
    ensures
        matching_from(s, i, open, close, depth) matches Ok(e) ==> i < e <= s.len(),
    decreases s.len() - i,
{
    if 0 <= i < s.len() {
        lemma_skip_bounds(s, i, true);
        match skip_at(s, i, true) {
            Some(Ok(e)) => lemma_matching_bounds(s, e, open, close, depth),
            Some(Err(_)) => {},
            None => {
                if s[i] == open {
                    lemma_matching_bounds(s, i + 1, open, close, depth + 1);
                } else if s[i] == close {
                    if depth > 1 {
                        lemma_matching_bounds(s, i + 1, open, close, (depth - 1) as nat);
                    }
                } else {
                    lemma_matching_bounds(s, i + 1, open, close, depth);
                }
            },
        }
    }
}

/// The end of the bracketed group that opens with `open` at `start`: after its matching
/// `close`, or the delimiter that is never closed.
pub fn find_matching(s: &[char], start: usize, open: char, close: char) -> (r: Result<usize, char>)
    requires
        start < s@.len(),
        s@[start as int] == open,
        open != '"' && open != '\'' && open != '/',
    ensures
        r matches Ok(e) ==> matching_from(s@, start as int, open, close, 0) == Ok::<int, char>(
            e as int,
        ) && start < e <= s@.len(),
        r matches Err(c) ==> matching_from(s@, start as int, open, close, 0) == Err::<int, char>(
            c,
        ),
{
    proof {
        lemma_matching_bounds(s@, start as int, open, close, 0);
    }
    let mut depth: usize = 0;
    let mut i = start;
    while i < s.len()
        invariant
            start <= i <= s@.len(),
            depth <= i - start,
            matching_from(s@, start as int, open, close, 0) == matching_from(
                s@,
                i as int,
                open,
                close,
                depth as nat,
            ),
        decreases s@.len() - i,
    {
        match skip_quoted(s, i, true) {
            Some(Ok(e)) => {
                i = e;
            },
            Some(Err(c)) => {
                return Err(c);
            },
            None => {
                let c = s[i];
                if c == open {
                    depth += 1;
                } else if c == close {
                    if depth <= 1 {
                        return Ok(i + 1);
                    }
                    depth -= 1;
                }
                i += 1;
            },
        }
    }
    Err(open)
}

/// Saturating decrement.
pub open spec fn dec(n: nat) -> nat {
    if n == 0 {
        0
    } else {
        (n - 1) as nat
    }
}

/// Bracket depths: parentheses, braces and square brackets.
pub open spec fn at_top(p: nat, b: nat, k: nat) -> bool {
    p == 0 && b == 0 && k == 0
}

/// The end of the expression that goes on at `i`: the first `;` or `,` outside brackets, or
/// a closing bracket that was not opened in it, or the end of the text.
pub open spec fn expression_end_from(s: Seq<char>, i: int, p: nat, b: nat, k: nat) -> Result<
    int,
    char,
>
    decreases s.len() - i,
{
    if i < 0 || i >= s.len() {
        Ok(s.len() as int)
    } else {
        match skip_at(s, i, true) {
            Some(Ok(e)) => if i < e <= s.len() {
                expression_end_from(s, e, p, b, k)
            } else {
                Ok(s.len() as int)
            },
            Some(Err(c)) => Err(c),
            None => {
                let c = s[i];
                if c == '(' {
                    expression_end_from(s, i + 1, p + 1, b, k)
                } else if c == ')' {
                    if at_top(p, b, k) {
                        Ok(i)
                    } else {
                        expression_end_from(s, i + 1, dec(p), b, k)
                    }
                } else if c == '[' {
                    expression_end_from(s, i + 1, p, b, k + 1)
                } else if c == ']' {
                    if at_top(p, b, k) {
                        Ok(i)
                    } else {
                        expression_end_from(s, i + 1, p, b, dec(k))
                    }
                } else if c == '{' {
                    expression_end_from(s, i + 1, p, b + 1, k)
                } else if c == '}' {
                    if at_top(p, b, k) {
                        Ok(i)
                    } else {
                        expression_end_from(s, i + 1, p, dec(b), k)
                    }
                } else if (c == ';' || c == ',') && at_top(p, b, k) {
                    Ok(i)
                } else {
                    expression_end_from(s, i + 1, p, b, k)
                }
            },
        }
    }
}

pub proof fn lemma_expression_end_bounds(s: Seq<char>, i: int, p: nat, b: nat, k: nat)
    requires
        0 <= i <= s.len(),
    ensures
        expression_end_from(s, i, p, b, k) matches Ok(e) ==> i <= e <= s.len(),
    decreases s.len() - i,
{
    if i < s.len() {
        lemma_skip_bounds(s, i, true);
        match skip_at(s, i, true) {
            Some(Ok(e)) => lemma_expression_end_bounds(s, e, p, b, k),
            Some(Err(_)) => {},
            None => {
                let c = s[i];
                if c == '(' {
                    lemma_expression_end_bounds(s, i + 1, p + 1, b, k);
                } else if c == '[' {
                    lemma_expression_end_bounds(s, i + 1, p, b, k + 1);
                } else if c == '{' {
                    lemma_expression_end_bounds(s, i + 1, p, b + 1, k);
                } else {
                    lemma_expression_end_bounds(s, i + 1, dec(p), b, k);
                    lemma_expression_end_bounds(s, i + 1, p, dec(b), k);
                    lemma_expression_end_bounds(s, i + 1, p, b, dec(k));
                    lemma_expression_end_bounds(s, i + 1, p, b, k);
                }
            },
        }
    }
}

/// The end of the expression that starts at `start`: see `expression_end_from`.
pub fn scan_expression_end(s: &[char], start: usize) -> (r: Result<usize, char>)
    requires
        start <= s@.len(),
    ensures
        r matches Ok(e) ==> expression_end_from(s@, start as int, 0, 0, 0) == Ok::<int, char>(
            e as int,
        ) && start <= e <= s@.len(),
        r matches Err(c) ==> expression_end_from(s@, start as int, 0, 0, 0) == Err::<int, char>(
            c,
        ),
{
    proof {
        lemma_expression_end_bounds(s@, start as int, 0, 0, 0);
    }
    let mut p: usize = 0;
    let mut b: usize = 0;
    let mut k: usize = 0;
    let mut i = start;
    while i < s.len()
        invariant
            start <= i <= s@.len(),
            p + b + k <= i,
            expression_end_from(s@, start as int, 0, 0, 0) == expression_end_from(
                s@,
                i as int,
                p as nat,
                b as nat,
                k as nat,
            ),
        decreases s@.len() - i,
    {
        match skip_quoted(s, i, true) {
            Some(Ok(e)) => {
                i = e;
            },
            Some(Err(c)) => {
                return Err(c);
            },
            None => {
                let c = s[i];
                let top = p == 0 && b == 0 && k == 0;
                if c == '(' {
                    p += 1;
                } else if c == ')' {
                    if top {
                        return Ok(i);
                    }
                    if p > 0 {
                        p -= 1;
                    }
                } else if c == '[' {
                    k += 1;
                } else if c == ']' {
                    if top {
                        return Ok(i);
                    }
                    if k > 0 {
                        k -= 1;
                    }
                } else if c == '{' {
                    b += 1;
                } else if c == '}' {
                    if top {
                        return Ok(i);
                    }
                    if b > 0 {
                        b -= 1;
                    }
                } else if (c == ';' || c == ',') && top {
                    return Ok(i);
                }
                i += 1;
            },
        }
    }
    Ok(s.len())
}

/// The first position at or after `i` that is not whitespace, or the end of the text.
pub open spec fn skip_ws(s: Seq<char>, i: int) -> int
    decreases s.len() - i,
{
    if 0 <= i < s.len() && is_ws(s[i]) {
        skip_ws(s, i + 1)
    } else {
        i
    }
}

pub proof fn lemma_skip_ws_bounds(s: Seq<char>, i: int)
    requires
        0 <= i <= s.len(),
    ensures
        i <= skip_ws(s, i) <= s.len(),
        skip_ws(s, i) < s.len() ==> !is_ws(s[skip_ws(s, i)]),
    decreases s.len() - i,
{
    if i < s.len() && is_ws(s[i]) {
        lemma_skip_ws_bounds(s, i + 1);
    }
}

/// The first position at or after `i` that is not whitespace, or the end of the text.
pub fn skip_whitespace(s: &[char], i: usize) -> (e: usize)
    requires
        i <= s@.len(),
    ensures
        e as int == skip_ws(s@, i as int),
        i <= e <= s@.len(),
{
    proof {
        lemma_skip_ws_bounds(s@, i as int);
    }
    let mut j = i;
    while j < s.len() && is_whitespace(s[j])
        invariant
            i <= j <= s@.len(),
            skip_ws(s@, i as int) == skip_ws(s@, j as int),
        decreases s@.len() - j,
    {
        j += 1;
    }
    j
}

/// The last position before `i` that is not whitespace.
pub open spec fn previous_significant(s: Seq<char>, i: int) -> Option<int>
    decreases i,
{
    if i <= 0 {
        None
    } else if !is_ws(s[i - 1]) {
        Some(i - 1)
    } else {
        previous_significant(s, i - 1)
    }
}

/// The character at the last position before `i` that is not whitespace.
pub open spec fn previous_char(s: Seq<char>, i: int) -> Option<char> {
    match previous_significant(s, i) {
        Some(j) => Some(s[j]),
        None => None,
    }
}

pub proof fn lemma_previous_significant_bounds(s: Seq<char>, i: int)
    ensures
        previous_significant(s, i) matches Some(j) ==> 0 <= j < i,
    decreases i,
{
    if i > 0 && is_ws(s[i - 1]) {
        lemma_previous_significant_bounds(s, i - 1);
    }
}

/// The last position before `i` that is not whitespace.
pub fn previous_significant_index(s: &[char], i: usize) -> (r: Option<usize>)
    requires
        i <= s@.len(),
    ensures
        r matches Some(j) ==> previous_significant(s@, i as int) == Some(j as int) && j < i,
        r is None ==> previous_significant(s@, i as int) is None,
{
    let mut j = i;
    while j > 0
        invariant
            j <= i <= s@.len(),
            previous_significant(s@, i as int) == previous_significant(s@, j as int),
        decreases j,
    {
        if !is_whitespace(s[j - 1]) {
            return Some(j - 1);
        }
        j -= 1;
    }
    None
}

/// The character at the last position before `i` that is not whitespace.
pub fn previous_significant_char(s: &[char], i: usize) -> (r: Option<char>)
    requires
        i <= s@.len(),
    ensures
        r == previous_char(s@, i as int),
{
    match previous_significant_index(s, i) {
        Some(j) => Some(s[j]),
        None => None,
    }
}

/// The length of `s` without its trailing whitespace.
pub open spec fn trimmed_end(s: Seq<char>, e: int) -> int
    decreases e,
{
    if e > 0 && e <= s.len() && is_ws(s[e - 1]) {
        trimmed_end(s, e - 1)
    } else {
        e
    }
}

/// The length of `s` without its trailing whitespace.
pub fn trim_end_index(s: &[char]) -> (e: usize)
    ensures
        e as int == trimmed_end(s@, s@.len() as int),
        e <= s@.len(),
{
    let mut e = s.len();
    while e > 0 && is_whitespace(s[e - 1])
        invariant
            e <= s@.len(),
            trimmed_end(s@, s@.len() as int) == trimmed_end(s@, e as int),
        decreases e,
    {
        e -= 1;
    }
    e
}

/// The end of the identifier that starts at `i`.
pub open spec fn identifier_end(s: Seq<char>, i: int) -> int
    decreases s.len() - i,
{
    if 0 <= i < s.len() && crate::text::is_ident_continue(s[i]) {
        identifier_end(s, i + 1)
    } else {
        i
    }
}

pub proof fn lemma_identifier_end_bounds(s: Seq<char>, i: int)
    requires
        0 <= i <= s.len(),
    ensures
        i <= identifier_end(s, i) <= s.len(),
    decreases s.len() - i,
{
    if i < s.len() && crate::text::is_ident_continue(s[i]) {
        lemma_identifier_end_bounds(s, i + 1);
    }
}

} // verus!
