//! `String` bindings in source text: a `let x: String = rhs;` whose right-hand side does not
//! already build a `String` gets `String::from(..)`, and a `static X: String =
//! String::from("..");` becomes a `&str` static. Both are found with the `regex` crate.
use crate::project::manifest::{trim_chars, trim_spec};
use crate::text::{chars_of, push_all, push_range, push_str, string_of};
use crate::transpiler::compiler::generator::spec::{ends_with, starts_with};
use crate::transpiler::compiler::generator::text::{ends_with_str, starts_with_str};
use crate::transpiler::error::TranspileError;
use vstd::prelude::*;

verus! {

/// The pattern of a `String` binding: group 1 is everything up to the right-hand side,
/// group 2 the right-hand side up to the `;`.
pub const STRING_BINDING_PATTERN: &'static str = "(?m)(let\\s+(?:mut\\s+)?[A-Za-z_][A-Za-z0-9_]*\\s*:\\s*String\\s*=\\s*)([^;]+);";

/// The pattern of a `String` static built from a literal: group 1 is `static NAME: `, group
/// 2 the `=` with its spaces, group 3 the literal.
pub const STATIC_STRING_PATTERN: &'static str = "(?m)(static\\s+[A-Za-z_][A-Za-z0-9_]*\\s*:\\s*)String(\\s*=\\s*)String::from\\((\"(?:\\\\.|[^\"])*\")\\);";

/// The capture groups of every successive non-overlapping match of the regular expression
/// `pattern` in `haystack`, each group as the byte range it matched or `None` where it took
/// no part, in the order of the groups; `None` when the pattern does not compile.
pub uninterp spec fn regex_capture_spans(pattern: Seq<char>, haystack: Seq<char>) -> Option<
    Seq<Seq<Option<(int, int)>>>,
>;

/// The positions of a list of matches as integers.
pub open spec fn matches_view(v: Seq<Vec<Option<(usize, usize)>>>) -> Seq<Seq<Option<(int, int)>>> {
    v.map_values(
        |m: Vec<Option<(usize, usize)>>|
            m@.map_values(
                |g: Option<(usize, usize)>|
                    match g {
                        Some((a, b)) => Some((a as int, b as int)),
                        None => None,
                    },
            ),
    )
}

/// Compiles `pattern` with `regex::Regex::new` and lists, for every match that
/// `Regex::captures_iter` yields on `haystack`, the byte range (`Match::start`,
/// `Match::end`) of each capture group as `Captures::iter` yields them; `None` when
/// `Regex::new` returns an error. The contract claims only that the outcome is a function of
/// the pattern and the haystack.
#[verifier::external_body]
fn capture_spans(pattern: &str, haystack: &str) -> (r: Option<Vec<Vec<Option<(usize, usize)>>>>)
    ensures
        match r {
            Some(v) => regex_capture_spans(pattern@, haystack@) == Some(matches_view(v@)),
            None => regex_capture_spans(pattern@, haystack@) is None,
        },
{
    match regex::Regex::new(pattern) {
        Ok(re) => Some(
            re.captures_iter(haystack).map(
                |caps| caps.iter().map(|m| m.map(|m| (m.start(), m.end()))).collect(),
            ).collect(),
        ),
        Err(_) => None,
    }
}

/// The number of bytes that UTF-8 takes for `c`.
pub open spec fn utf8_width(c: char) -> int {
    if (c as u32) < 0x80 {
        1
    } else if (c as u32) < 0x800 {
        2
    } else if (c as u32) < 0x10000 {
        3
    } else {
        4
    }
}

/// The byte offset in UTF-8 of the `k`-th character of `s`.
pub open spec fn byte_offset(s: Seq<char>, k: int) -> int
    decreases k,
{
    if k <= 0 || k > s.len() {
        0
    } else {
        byte_offset(s, k - 1) + utf8_width(s[k - 1])
    }
}

/// The character position, from `k` on, at which byte offset `b` falls, if a character
/// starts there (or the text ends there).
pub open spec fn char_index_from(s: Seq<char>, b: int, k: int) -> Option<int>
    decreases s.len() + 1 - k,
{
    if k < 0 || k > s.len() {
        None
    } else if byte_offset(s, k) == b {
        Some(k)
    } else if byte_offset(s, k) > b {
        None
    } else {
        char_index_from(s, b, k + 1)
    }
}

/// The character position at which byte offset `b` falls.
pub open spec fn char_index(s: Seq<char>, b: int) -> Option<int> {
    char_index_from(s, b, 0)
}

/// A byte range as a character range, when both ends fall on characters in order.
pub open spec fn char_span(s: Seq<char>, span: Option<(int, int)>) -> Option<(int, int)> {
    match span {
        Some((a, b)) => match char_index(s, a) {
            Some(x) => match char_index(s, b) {
                Some(y) => if x <= y {
                    Some((x, y))
                } else {
                    None
                },
                None => None,
            },
            None => None,
        },
        None => None,
    }
}

/// The text of capture group `g` of a match, empty when it took no part.
pub open spec fn group_text(s: Seq<char>, m: Seq<Option<(int, int)>>, g: int) -> Seq<char> {
    if 0 <= g < m.len() {
        match char_span(s, m[g]) {
            Some((x, y)) => s.subrange(x, y),
            None => seq![],
        }
    } else {
        seq![]
    }
}

/// Which of the two rewritings a replacement is for.
#[derive(Clone, Copy, Debug, PartialEq, Eq, Structural)]
pub enum BindingRule {
    /// `let x: String = rhs;`
    Binding,
    /// `static X: String = String::from("..");`
    Static,
}

/// A right-hand side that already builds a `String`.
pub open spec fn builds_string(rhs: Seq<char>) -> bool {
    starts_with(rhs, "String::from("@) || starts_with(rhs, "format!("@) || ends_with(
        rhs,
        ".to_string()"@,
    ) || rhs == "String::new()"@
}

/// What replaces one match: a binding keeps its text when the right-hand side already builds
/// a `String` and otherwise wraps it in `String::from(..)`; a static becomes `&str`.
pub open spec fn replacement(rule: BindingRule, s: Seq<char>, m: Seq<Option<(int, int)>>) -> Seq<
    char,
> {
    match rule {
        BindingRule::Binding => {
            let rhs = trim_spec(group_text(s, m, 2), false);
            if builds_string(rhs) {
                group_text(s, m, 0)
            } else {
                group_text(s, m, 1) + "String::from("@ + rhs + ");"@
            }
        },
        BindingRule::Static => group_text(s, m, 1) + "&str"@ + group_text(s, m, 2) + group_text(
            s,
            m,
            3,
        ) + ";"@,
    }
}

/// The text from `cursor` with the matches from the `k`-th on replaced; a match that does not
/// fall on characters after the cursor is passed over.
pub open spec fn replaced_from(
    rule: BindingRule,
    s: Seq<char>,
    ms: Seq<Seq<Option<(int, int)>>>,
    k: int,
    cursor: int,
) -> Seq<char>
    decreases ms.len() - k,
{
    if k < 0 || k >= ms.len() {
        s.subrange(cursor, s.len() as int)
    } else {
        match (if ms[k].len() > 0 {
            char_span(s, ms[k][0])
        } else {
            None
        }) {
            Some((x, y)) => if cursor <= x {
                s.subrange(cursor, x) + replacement(rule, s, ms[k]) + replaced_from(
                    rule,
                    s,
                    ms,
                    k + 1,
                    y,
                )
            } else {
                replaced_from(rule, s, ms, k + 1, cursor)
            },
            None => replaced_from(rule, s, ms, k + 1, cursor),
        }
    }
}

/// The text with every listed match replaced.
pub open spec fn replaced(rule: BindingRule, s: Seq<char>, ms: Seq<Seq<Option<(int, int)>>>) -> Seq<
    char,
> {
    replaced_from(rule, s, ms, 0, 0)
}

fn utf8_len(c: char) -> (n: usize)
    ensures
        n as int == utf8_width(c),
{
    let v = c as u32;
    if v < 0x80 {
        1
    } else if v < 0x800 {
        2
    } else if v < 0x10000 {
        3
    } else {
        4
    }
}

/// The character position at which byte offset `b` falls: see `char_index`.
pub fn char_index_of(s: &[char], b: usize) -> (r: Option<usize>)
    ensures
        match r {
            Some(k) => char_index(s@, b as int) == Some(k as int) && k <= s@.len(),
            None => char_index(s@, b as int) is None,
        },
{
    let mut k: usize = 0;
    let mut acc: usize = 0;
    while k <= s.len()
        invariant
            k <= s@.len() + 1,
            k <= s@.len() ==> acc as int == byte_offset(s@, k as int) && acc <= b,
            char_index(s@, b as int) == char_index_from(s@, b as int, k as int),
        decreases s@.len() + 1 - k,
    {
        if acc == b {
            return Some(k);
        }
        if k == s.len() {
            return None;
        }
        let w = utf8_len(s[k]);
        if w > b - acc {
            assert(byte_offset(s@, k + 1) > b);
            assert(char_index_from(s@, b as int, k + 1) is None);
            return None;
        }
        acc = acc + w;
        k += 1;
    }
    None
}

/// The character range of a byte range: see `char_span`.
fn char_span_of(s: &[char], span: Option<(usize, usize)>) -> (r: Option<(usize, usize)>)
    ensures
        match r {
            Some((x, y)) => char_span(
                s@,
                match span {
                    Some((a, b)) => Some((a as int, b as int)),
                    None => None,
                },
            ) == Some((x as int, y as int)) && x <= y <= s@.len(),
            None => char_span(
                s@,
                match span {
                    Some((a, b)) => Some((a as int, b as int)),
                    None => None,
                },
            ) is None,
        },
{
    match span {
        None => None,
        Some((a, b)) => match char_index_of(s, a) {
            None => None,
            Some(x) => match char_index_of(s, b) {
                None => None,
                Some(y) => if x <= y {
                    Some((x, y))
                } else {
                    None
                },
            },
        },
    }
}

/// Appends the text of capture group `g`: see `group_text`.
fn push_group(out: &mut Vec<char>, s: &[char], m: &Vec<Option<(usize, usize)>>, g: usize)
    ensures
        final(out)@ == old(out)@ + group_text(
            s@,
            m@.map_values(
                |g: Option<(usize, usize)>|
                    match g {
                        Some((a, b)) => Some((a as int, b as int)),
                        None => None,
                    },
            ),
            g as int,
        ),
{
    if g < m.len() {
        match char_span_of(s, m[g]) {
            Some((x, y)) => push_range(out, s, x, y),
            None => {
                assert(old(out)@ + seq![] =~= old(out)@);
            },
        }
    } else {
        assert(old(out)@ + seq![] =~= old(out)@);
    }
}

/// Appends what replaces match `m`: see `replacement`.
fn push_replacement(out: &mut Vec<char>, rule: BindingRule, s: &[char], m: &Vec<Option<(usize, usize)>>)
    ensures
        final(out)@ == old(out)@ + replacement(
            rule,
            s@,
            m@.map_values(
                |g: Option<(usize, usize)>|
                    match g {
                        Some((a, b)) => Some((a as int, b as int)),
                        None => None,
                    },
            ),
        ),
{
    let ghost mv = m@.map_values(
        |g: Option<(usize, usize)>|
            match g {
                Some((a, b)) => Some((a as int, b as int)),
                None => None,
            },
    );
    let ghost start = out@;
    match rule {
        BindingRule::Binding => {
            let mut rhs_full: Vec<char> = Vec::new();
            push_group(&mut rhs_full, s, m, 2);
            assert(rhs_full@ =~= group_text(s@, mv, 2));
            let rhs = trim_chars(&rhs_full, false);
            let keep = starts_with_str(&rhs, "String::from(") || starts_with_str(&rhs, "format!(")
                || ends_with_str(&rhs, ".to_string()") || crate::text::chars_eq(
                &rhs,
                &chars_of("String::new()"),
            );
            if keep {
                push_group(out, s, m, 0);
            } else {
                push_group(out, s, m, 1);
                push_str(out, "String::from(");
                push_all(out, &rhs);
                push_str(out, ");");
                assert(out@ =~= start + (group_text(s@, mv, 1) + "String::from("@ + rhs@ + ");"@));
            }
        },
        BindingRule::Static => {
            push_group(out, s, m, 1);
            push_str(out, "&str");
            push_group(out, s, m, 2);
            push_group(out, s, m, 3);
            push_str(out, ";");
            assert(out@ =~= start + (group_text(s@, mv, 1) + "&str"@ + group_text(s@, mv, 2)
                + group_text(s@, mv, 3) + ";"@));
        },
    }
}

/// The text with every listed match replaced: see `replaced`. The matches are the byte ranges
/// of the capture groups, match by match, as `capture_spans` lists them.
pub fn apply_matches(rule: BindingRule, source: &str, matches: &Vec<Vec<Option<(usize, usize)>>>) -> (r: String)
    ensures
        r@ == replaced(rule, source@, matches_view(matches@)),
{
    let s = chars_of(source);
    let ghost ms = matches_view(matches@);
    let mut out: Vec<char> = Vec::new();
    let mut cursor: usize = 0;
    let mut k: usize = 0;
    assert(out@ + replaced_from(rule, s@, ms, 0, 0) =~= replaced_from(rule, s@, ms, 0, 0));
    while k < matches.len()
        invariant
            k <= matches@.len(),
            cursor <= s@.len(),
            s@ == source@,
            ms == matches_view(matches@),
            ms.len() == matches@.len(),
            replaced(rule, s@, ms) == out@ + replaced_from(rule, s@, ms, k as int, cursor as int),
        decreases matches@.len() - k,
    {
        let m = &matches[k];
        assert(ms[k as int] == m@.map_values(
            |g: Option<(usize, usize)>|
                match g {
                    Some((a, b)) => Some((a as int, b as int)),
                    None => None,
                },
        ));
        let whole = if m.len() > 0 {
            char_span_of(&s, m[0])
        } else {
            None
        };
        let ghost before = out@;
        match whole {
            Some((x, y)) => {
                if cursor <= x {
                    push_range(&mut out, &s, cursor, x);
                    push_replacement(&mut out, rule, &s, m);
                    assert(out@ + replaced_from(rule, s@, ms, k + 1, y as int) =~= before + (
                    s@.subrange(cursor as int, x as int) + replacement(rule, s@, ms[k as int])
                        + replaced_from(rule, s@, ms, k + 1, y as int)));
                    cursor = y;
                }
            },
            None => {},
        }
        k += 1;
    }
    push_range(&mut out, &s, cursor, s.len());
    string_of(&out)
}

/// The error for a pattern that does not compile.
pub open spec fn pattern_error() -> TranspileError {
    TranspileError::UnclosedDelimiter('r')
}

/// Wraps in `String::from(..)` the right-hand side of every `let x: String = rhs;` that does
/// not already build a `String`; an error when the pattern does not compile.
pub fn rewrite_string_bindings(source: &str) -> (r: Result<String, TranspileError>)
    ensures
        match regex_capture_spans(STRING_BINDING_PATTERN@, source@) {
            Some(ms) => r matches Ok(t) && t@ == replaced(BindingRule::Binding, source@, ms),
            None => r == Err::<String, TranspileError>(pattern_error()),
        },
{
    match capture_spans(STRING_BINDING_PATTERN, source) {
        Some(matches) => Ok(apply_matches(BindingRule::Binding, source, &matches)),
        None => Err(TranspileError::UnclosedDelimiter('r')),
    }
}

/// Makes every `static X: String = String::from("..");` a `&str` static; an error when the
/// pattern does not compile.
pub fn rewrite_static_strings(source: &str) -> (r: Result<String, TranspileError>)
    ensures
        match regex_capture_spans(STATIC_STRING_PATTERN@, source@) {
            Some(ms) => r matches Ok(t) && t@ == replaced(BindingRule::Static, source@, ms),
            None => r == Err::<String, TranspileError>(pattern_error()),
        },
{
    match capture_spans(STATIC_STRING_PATTERN, source) {
        Some(matches) => Ok(apply_matches(BindingRule::Static, source, &matches)),
        None => Err(TranspileError::UnclosedDelimiter('r')),
    }
}

} // verus!
