//! The text format of the cache files: lines of tab-separated fields, escaped paths and
//! decimal numbers.
use crate::text::{chars_of, push_range, string_of, string_of_range};
use vstd::prelude::*;

verus! {

// ---------------------------------------------------------------------------------------
// Escaping.
/// The escaped form of one character: backslash, tab, newline and carriage return become
/// two-character escapes.
pub open spec fn escape_char(c: char) -> Seq<char> {
    if c == '\\' {
        seq!['\\', '\\']
    } else if c == '\t' {
        seq!['\\', 't']
    } else if c == '\n' {
        seq!['\\', 'n']
    } else if c == '\r' {
        seq!['\\', 'r']
    } else {
        seq![c]
    }
}

/// A text with every character escaped.
pub open spec fn escape_spec(s: Seq<char>) -> Seq<char>
    decreases s.len(),
{
    if s.len() == 0 {
        seq![]
    } else {
        escape_char(s[0]) + escape_spec(s.drop_first())
    }
}

/// The character an escape letter stands for.
pub open spec fn unescaped_char(c: char) -> Option<char> {
    if c == '\\' {
        Some('\\')
    } else if c == 't' {
        Some('\t')
    } else if c == 'n' {
        Some('\n')
    } else if c == 'r' {
        Some('\r')
    } else {
        None
    }
}

/// The text an escaped text stands for; `None` for a lone backslash at the end or an
/// unknown escape.
pub open spec fn unescape_spec(s: Seq<char>) -> Option<Seq<char>>
    decreases s.len(),
{
    if s.len() == 0 {
        Some(seq![])
    } else if s[0] != '\\' {
        match unescape_spec(s.drop_first()) {
            Some(r) => Some(seq![s[0]] + r),
            None => None,
        }
    } else if s.len() < 2 {
        None
    } else {
        match unescaped_char(s[1]) {
            Some(d) => match unescape_spec(s.subrange(2, s.len() as int)) {
                Some(r) => Some(seq![d] + r),
                None => None,
            },
            None => None,
        }
    }
}

/// Escapes backslashes, tabs, newlines and carriage returns.
pub fn escape(value: &str) -> (escaped: String)
    ensures
        escaped@ == escape_spec(value@),
{
    let s = chars_of(value);
    let mut out: Vec<char> = Vec::new();
    let mut i: usize = 0;
    assert(s@.skip(0) =~= s@);
    while i < s.len()
        invariant
            i <= s@.len(),
            s@ == value@,
            escape_spec(value@) == out@ + escape_spec(s@.skip(i as int)),
        decreases s@.len() - i,
    {
        assert(s@.skip(i as int).drop_first() =~= s@.skip(i + 1));
        let c = s[i];
        let ghost before = out@;
        if c == '\\' {
            out.push('\\');
            out.push('\\');
        } else if c == '\t' {
            out.push('\\');
            out.push('t');
        } else if c == '\n' {
            out.push('\\');
            out.push('n');
        } else if c == '\r' {
            out.push('\\');
            out.push('r');
        } else {
            out.push(c);
        }
        assert(out@ =~= before + escape_char(c));
        i += 1;
    }
    assert(s@.skip(i as int) =~= Seq::<char>::empty());
    assert(out@ =~= out@ + Seq::<char>::empty());
    string_of(&out)
}

/// Undoes `escape`; `None` on a malformed escape.
pub fn unescape(value: &str) -> (unescaped: Option<String>)
    ensures
        unescaped is Some <==> unescape_spec(value@) is Some,
        unescaped matches Some(text) ==> unescape_spec(value@) == Some(text@),
{
    let s = chars_of(value);
    let mut out: Vec<char> = Vec::new();
    let mut i: usize = 0;
    assert(s@.skip(0) =~= s@);
    while i < s.len()
        invariant
            i <= s@.len(),
            s@ == value@,
            unescape_spec(value@) == (match unescape_spec(s@.skip(i as int)) {
                Some(r) => Some(out@ + r),
                None => None,
            }),
        decreases s@.len() - i,
    {
        let ghost rest = s@.skip(i as int);
        let c = s[i];
        if c != '\\' {
            assert(rest.drop_first() =~= s@.skip(i + 1));
            let ghost before = out@;
            out.push(c);
            proof {
                match unescape_spec(s@.skip(i + 1)) {
                    Some(r) => {
                        assert(out@ + r =~= before + (seq![c] + r));
                    },
                    None => {},
                }
            }
            i += 1;
        } else {
            if i + 1 >= s.len() {
                return None;
            }
            let e = s[i + 1];
            let d = if e == '\\' {
                '\\'
            } else if e == 't' {
                '\t'
            } else if e == 'n' {
                '\n'
            } else if e == 'r' {
                '\r'
            } else {
                return None;
            };
            assert(rest.subrange(2, rest.len() as int) =~= s@.skip(i + 2));
            let ghost before = out@;
            out.push(d);
            proof {
                match unescape_spec(s@.skip(i + 2)) {
                    Some(r) => {
                        assert(out@ + r =~= before + (seq![d] + r));
                    },
                    None => {},
                }
            }
            i += 2;
        }
    }
    assert(s@.skip(i as int) =~= Seq::<char>::empty());
    assert(out@ + Seq::<char>::empty() =~= out@);
    Some(string_of(&out))
}

/// Escaping can be undone: `unescape` gives back every text that `escape` wrote.
pub proof fn lemma_unescape_escape(s: Seq<char>)
    ensures
        unescape_spec(escape_spec(s)) == Some(s),
    decreases s.len(),
{
    if s.len() > 0 {
        lemma_unescape_escape(s.drop_first());
        let e = escape_spec(s);
        let rest = escape_spec(s.drop_first());
        let c = s[0];
        assert(e == escape_char(c) + rest);
        if c == '\\' || c == '\t' || c == '\n' || c == '\r' {
            assert(e.subrange(2, e.len() as int) =~= rest);
        } else {
            assert(e.drop_first() =~= rest);
        }
        assert(seq![c] + s.drop_first() =~= s);
    }
}

/// An escaped text holds no tab, newline or carriage return.
pub proof fn lemma_escape_plain(s: Seq<char>)
    ensures
        forall|i: int|
            0 <= i < escape_spec(s).len() ==> (#[trigger] escape_spec(s)[i]) != '\t'
                && escape_spec(s)[i] != '\n' && escape_spec(s)[i] != '\r',
    decreases s.len(),
{
    if s.len() > 0 {
        lemma_escape_plain(s.drop_first());
        let e = escape_spec(s);
        let head = escape_char(s[0]);
        let rest = escape_spec(s.drop_first());
        assert forall|i: int| 0 <= i < e.len() implies (#[trigger] e[i]) != '\t' && e[i] != '\n'
            && e[i] != '\r' by {
            if i < head.len() {
                assert(e[i] == head[i]);
            } else {
                assert(e[i] == rest[i - head.len()]);
            }
        }
    }
}

// ---------------------------------------------------------------------------------------
// Decimal numbers.
/// The value of an ASCII decimal digit.
pub open spec fn char_digit(c: char) -> Option<nat> {
    if c == '0' {
        Some(0)
    } else if c == '1' {
        Some(1)
    } else if c == '2' {
        Some(2)
    } else if c == '3' {
        Some(3)
    } else if c == '4' {
        Some(4)
    } else if c == '5' {
        Some(5)
    } else if c == '6' {
        Some(6)
    } else if c == '7' {
        Some(7)
    } else if c == '8' {
        Some(8)
    } else if c == '9' {
        Some(9)
    } else {
        None
    }
}

pub open spec fn is_digit_char(c: char) -> bool {
    char_digit(c) is Some
}

pub open spec fn digit_value(c: char) -> nat {
    char_digit(c)->Some_0
}

/// The digit that writes `d`, for `d < 10`.
pub open spec fn digit_char(d: nat) -> char {
    if d == 0 {
        '0'
    } else if d == 1 {
        '1'
    } else if d == 2 {
        '2'
    } else if d == 3 {
        '3'
    } else if d == 4 {
        '4'
    } else if d == 5 {
        '5'
    } else if d == 6 {
        '6'
    } else if d == 7 {
        '7'
    } else if d == 8 {
        '8'
    } else {
        '9'
    }
}

fn digit_of(c: char) -> (d: Option<u64>)
    ensures
        d matches Some(v) ==> char_digit(c) == Some(v as nat),
        d is None ==> char_digit(c) is None,
{
    if c == '0' {
        Some(0)
    } else if c == '1' {
        Some(1)
    } else if c == '2' {
        Some(2)
    } else if c == '3' {
        Some(3)
    } else if c == '4' {
        Some(4)
    } else if c == '5' {
        Some(5)
    } else if c == '6' {
        Some(6)
    } else if c == '7' {
        Some(7)
    } else if c == '8' {
        Some(8)
    } else if c == '9' {
        Some(9)
    } else {
        None
    }
}

fn char_of_digit(d: u64) -> (c: char)
    requires
        d < 10,
    ensures
        c == digit_char(d as nat),
{
    if d == 0 {
        '0'
    } else if d == 1 {
        '1'
    } else if d == 2 {
        '2'
    } else if d == 3 {
        '3'
    } else if d == 4 {
        '4'
    } else if d == 5 {
        '5'
    } else if d == 6 {
        '6'
    } else if d == 7 {
        '7'
    } else if d == 8 {
        '8'
    } else {
        '9'
    }
}

/// The value of a string of decimal digits, read from the left.
pub open spec fn digits_value(s: Seq<char>) -> nat
    decreases s.len(),
{
    if s.len() == 0 {
        0
    } else {
        digits_value(s.drop_last()) * 10 + digit_value(s.last())
    }
}

/// The decimal digits of `n`, no leading zero.
pub open spec fn decimal(n: nat) -> Seq<char>
    decreases n,
{
    if n < 10 {
        seq![digit_char(n)]
    } else {
        decimal(n / 10).push(digit_char(n % 10))
    }
}

/// The text after an optional leading `+`.
pub open spec fn unsigned_digits(s: Seq<char>) -> Seq<char> {
    if s.len() > 0 && s[0] == '+' {
        s.drop_first()
    } else {
        s
    }
}

pub open spec fn all_digits(d: Seq<char>) -> bool {
    forall|i: int| 0 <= i < d.len() ==> is_digit_char(#[trigger] d[i])
}

/// What `str::parse::<u64>` accepts: an optional `+` and at least one decimal digit, with a
/// value that fits.
pub open spec fn parse_u64_spec(s: Seq<char>) -> Option<u64> {
    let d = unsigned_digits(s);
    if d.len() == 0 || !all_digits(d) {
        None
    } else if digits_value(d) > u64::MAX {
        None
    } else {
        Some(digits_value(d) as u64)
    }
}

/// Writes `n` in decimal.
pub fn u64_decimal(n: u64) -> (text: String)
    ensures
        text@ == decimal(n as nat),
{
    let mut digits: Vec<char> = Vec::new();
    let mut m = n;
    let ghost mut tail: Seq<char> = seq![];
    // Collect the digits from the lowest.
    while m >= 10
        invariant
            decimal(n as nat) == decimal(m as nat) + digits@.reverse(),
        decreases m,
    {
        let c = char_of_digit(m % 10);
        proof {
            assert(c == digit_char((m % 10) as nat));
            assert(decimal(m as nat) == decimal((m / 10) as nat).push(c));
            assert(digits@.push(c).reverse() =~= seq![c] + digits@.reverse());
            assert(decimal((m / 10) as nat).push(c) + digits@.reverse() =~= decimal((m / 10) as nat)
                + (seq![c] + digits@.reverse()));
        }
        digits.push(c);
        m = m / 10;
    }
    let c = char_of_digit(m);
    assert(c == digit_char(m as nat));
    digits.push(c);
    assert(digits@.reverse() =~= seq![c] + digits@.drop_last().reverse());
    let mut out: Vec<char> = Vec::new();
    let mut i: usize = digits.len();
    while i > 0
        invariant
            i <= digits@.len(),
            out@ == digits@.subrange(i as int, digits@.len() as int).reverse(),
        decreases i,
    {
        i -= 1;
        let ghost before = out@;
        out.push(digits[i]);
        assert(digits@.subrange(i as int, digits@.len() as int).reverse() =~= before.push(
            digits@[i as int],
        ));
    }
    assert(digits@.subrange(0, digits@.len() as int) =~= digits@);
    assert(decimal(n as nat) =~= out@);
    string_of(&out)
}

/// Reads a `u64` as `str::parse::<u64>` does.
pub fn parse_u64(text: &str) -> (value: Option<u64>)
    ensures
        value == parse_u64_spec(text@),
{
    let s = chars_of(text);
    let start: usize = if s.len() > 0 && s[0] == '+' {
        1
    } else {
        0
    };
    let ghost d = unsigned_digits(text@);
    assert(d =~= s@.subrange(start as int, s@.len() as int));
    if start == s.len() {
        return None;
    }
    let mut value: u64 = 0;
    let mut i: usize = start;
    while i < s.len()
        invariant
            start <= i <= s@.len(),
            d == s@.subrange(start as int, s@.len() as int),
            d == unsigned_digits(text@),
            d.len() > 0,
            forall|j: int| start <= j < i ==> is_digit_char(#[trigger] s@[j]),
            value == digits_value(s@.subrange(start as int, i as int)),
        decreases s@.len() - i,
    {
        let c = s[i];
        let dv = match digit_of(c) {
            Some(dv) => dv,
            None => {
                assert(d[i - start] == c);
                assert(!is_digit_char(d[i - start]));
                assert(!all_digits(d));
                return None;
            },
        };
        let ghost piece = s@.subrange(start as int, i + 1);
        assert(piece.drop_last() =~= s@.subrange(start as int, i as int));
        assert(dv == digit_value(c));
        if value > (u64::MAX - dv) / 10 {
            proof {
                lemma_digits_value_prefix(d, i + 1 - start);
                assert(d.take(i + 1 - start) =~= piece);
                assert(value * 10 + dv > u64::MAX) by (nonlinear_arith)
                    requires
                        value > (u64::MAX - dv) / 10,
                        dv <= 9,
                ;
                assert(digits_value(piece) == value * 10 + dv);
                assert(digits_value(d) > u64::MAX);
                if all_digits(d) {
                    assert(parse_u64_spec(text@) is None);
                }
            }
            return None;
        }
        value = value * 10 + dv;
        i += 1;
    }
    assert(s@.subrange(start as int, i as int) =~= d);
    assert(all_digits(d)) by {
        assert forall|k: int| 0 <= k < d.len() implies is_digit_char(#[trigger] d[k]) by {
            assert(d[k] == s@[k + start]);
        }
    }
    Some(value)
}

/// A prefix of digits is worth no more than the whole.
pub proof fn lemma_digits_value_prefix(s: Seq<char>, k: int)
    requires
        0 <= k <= s.len(),
    ensures
        digits_value(s.take(k)) <= digits_value(s),
    decreases s.len(),
{
    if k < s.len() {
        assert(s.drop_last().take(k) =~= s.take(k));
        lemma_digits_value_prefix(s.drop_last(), k);
        assert(digits_value(s) == digits_value(s.drop_last()) * 10 + digit_value(s.last()));
        assert(digits_value(s.drop_last()) <= digits_value(s.drop_last()) * 10) by (nonlinear_arith);
    } else {
        assert(s.take(k) =~= s);
    }
}

/// Reading a number back gives the number written.
pub proof fn lemma_parse_decimal(n: u64)
    ensures
        parse_u64_spec(decimal(n as nat)) == Some(n),
{
    lemma_decimal_digits(n as nat);
}

/// The decimal text of `n` is made of digits, does not start with `+`, and is worth `n`.
pub proof fn lemma_decimal_digits(n: nat)
    ensures
        decimal(n).len() > 0,
        forall|i: int| 0 <= i < decimal(n).len() ==> is_digit_char(#[trigger] decimal(n)[i]),
        digits_value(decimal(n)) == n,
    decreases n,
{
    if n < 10 {
        assert(decimal(n).drop_last() =~= Seq::<char>::empty());
        assert(digit_value(digit_char(n)) == n);
        assert(digits_value(decimal(n)) == digits_value(Seq::<char>::empty()) * 10 + digit_value(
            digit_char(n),
        ));
    } else {
        lemma_decimal_digits(n / 10);
        let d = decimal(n);
        assert(d.drop_last() =~= decimal(n / 10));
        assert(d.last() == digit_char((n % 10) as nat));
        assert(n == (n / 10) * 10 + n % 10);
        assert(digit_value(digit_char((n % 10) as nat)) == n % 10) by {
            assert(n % 10 < 10);
        }
        assert forall|i: int| 0 <= i < d.len() implies is_digit_char(#[trigger] d[i]) by {
            if i < d.len() - 1 {
                assert(d[i] == decimal(n / 10)[i]);
            }
        }
    }
}

// ---------------------------------------------------------------------------------------
// Lines and fields.
/// The first position of `c` in `s` from `from`, if any.
pub open spec fn find_char(s: Seq<char>, c: char, from: int) -> Option<int>
    decreases s.len() - from,
{
    if from < 0 || from >= s.len() {
        None
    } else if s[from] == c {
        Some(from)
    } else {
        find_char(s, c, from + 1)
    }
}

/// `s` without a final carriage return.
pub open spec fn strip_cr(s: Seq<char>) -> Seq<char> {
    if s.len() > 0 && s.last() == '\r' {
        s.drop_last()
    } else {
        s
    }
}

/// The lines of a text as `str::lines` gives them: split at `\n`, a `\r` before the `\n`
/// dropped, no empty last line after a final `\n`.
pub open spec fn lines_spec(s: Seq<char>) -> Seq<Seq<char>>
    decreases s.len(),
{
    match find_char(s, '\n', 0) {
        Some(j) => {
            proof {
                lemma_find_char_bounds(s, '\n', 0);
            }
            seq![strip_cr(s.subrange(0, j))] + lines_spec(s.subrange(j + 1, s.len() as int))
        },
        None => if s.len() == 0 {
            seq![]
        } else {
            seq![s]
        },
    }
}

/// The pieces of a text between tabs, as `str::split('\t')` gives them.
pub open spec fn fields_spec(s: Seq<char>) -> Seq<Seq<char>>
    decreases s.len(),
{
    match find_char(s, '\t', 0) {
        Some(j) => {
            proof {
                lemma_find_char_bounds(s, '\t', 0);
            }
            seq![s.subrange(0, j)] + fields_spec(s.subrange(j + 1, s.len() as int))
        },
        None => seq![s],
    }
}

pub proof fn lemma_find_char_bounds(s: Seq<char>, c: char, from: int)
    requires
        0 <= from,
    ensures
        find_char(s, c, from) matches Some(j) ==> 0 <= from <= j < s.len() && s[j] == c,
        find_char(s, c, from) is None ==> forall|j: int| from <= j < s.len() && 0 <= j ==> s[j]
            != c,
    decreases s.len() - from,
{
    if 0 <= from < s.len() && s[from] != c {
        lemma_find_char_bounds(s, c, from + 1);
    }
}

/// The first position of `c` in `s` from `from`.
pub fn find_char_at(s: &[char], c: char, from: usize) -> (r: Option<usize>)
    requires
        from <= s@.len(),
    ensures
        r matches Some(j) ==> find_char(s@, c, from as int) == Some(j as int),
        r is None ==> find_char(s@, c, from as int) is None,
{
    let mut i = from;
    while i < s.len()
        invariant
            from <= i <= s@.len(),
            find_char(s@, c, from as int) == find_char(s@, c, i as int),
        decreases s@.len() - i,
    {
        if s[i] == c {
            return Some(i);
        }
        i += 1;
    }
    None
}

/// A search from `from` is the search in the text cut at `from`, moved.
proof fn lemma_find_char_shift(s: Seq<char>, c: char, from: int, i: int)
    requires
        0 <= from <= i,
        from <= s.len(),
    ensures
        find_char(s, c, i) == (match find_char(s.subrange(from, s.len() as int), c, i - from) {
            Some(j) => Some(j + from),
            None => None::<int>,
        }),
    decreases s.len() - i,
{
    let sub = s.subrange(from, s.len() as int);
    if i < s.len() {
        assert(sub[i - from] == s[i]);
        if s[i] != c {
            lemma_find_char_shift(s, c, from, i + 1);
        }
    }
}

/// Splits a text into its lines, as `str::lines` does.
pub fn split_lines(text: &Vec<char>) -> (lines: Vec<Vec<char>>)
    ensures
        lines@.map_values(|l: Vec<char>| l@) == lines_spec(text@),
{
    let mut lines: Vec<Vec<char>> = Vec::new();
    let mut start: usize = 0;
    assert(text@.subrange(0, text@.len() as int) =~= text@);
    assert(lines@.map_values(|l: Vec<char>| l@) =~= Seq::<Seq<char>>::empty());
    while start < text.len()
        invariant
            start <= text@.len(),
            lines_spec(text@) == lines@.map_values(|l: Vec<char>| l@) + lines_spec(
                text@.subrange(start as int, text@.len() as int),
            ),
        decreases text@.len() - start,
    {
        let ghost rest = text@.subrange(start as int, text@.len() as int);
        proof {
            lemma_find_char_shift(text@, '\n', start as int, start as int);
            lemma_find_char_bounds(text@, '\n', start as int);
        }
        match find_char_at(text, '\n', start) {
            Some(j) => {
                let mut end = j;
                if end > start && text[end - 1] == '\r' {
                    end -= 1;
                }
                let mut line: Vec<char> = Vec::new();
                push_range(&mut line, text, start, end);
                assert(line@ =~= strip_cr(rest.subrange(0, j - start)));
                assert(rest.subrange(j - start + 1, rest.len() as int) =~= text@.subrange(
                    j + 1,
                    text@.len() as int,
                ));
                let ghost before = lines@.map_values(|l: Vec<char>| l@);
                lines.push(line);
                assert(lines@.map_values(|l: Vec<char>| l@) =~= before.push(line@));
                assert(lines@.map_values(|l: Vec<char>| l@) + lines_spec(
                    text@.subrange(j + 1, text@.len() as int),
                ) =~= before + (seq![line@] + lines_spec(
                    text@.subrange(j + 1, text@.len() as int),
                )));
                start = j + 1;
            },
            None => {
                let mut line: Vec<char> = Vec::new();
                push_range(&mut line, text, start, text.len());
                assert(line@ =~= rest);
                let ghost before = lines@.map_values(|l: Vec<char>| l@);
                lines.push(line);
                assert(lines@.map_values(|l: Vec<char>| l@) =~= before + seq![rest]);
                assert(text@.subrange(text@.len() as int, text@.len() as int) =~= Seq::<
                    char,
                >::empty());
                start = text.len();
            },
        }
    }
    assert(text@.subrange(start as int, text@.len() as int) =~= Seq::<char>::empty());
    assert(lines@.map_values(|l: Vec<char>| l@) + Seq::<Seq<char>>::empty() =~= lines@.map_values(
        |l: Vec<char>| l@,
    ));
    lines
}

/// Splits a line at its tabs, as `str::split('\t')` does.
pub fn split_fields(line: &Vec<char>) -> (fields: Vec<String>)
    ensures
        fields@.map_values(|f: String| f@) == fields_spec(line@),
{
    let mut fields: Vec<String> = Vec::new();
    let mut start: usize = 0;
    let n = line.len();
    assert(line@.subrange(0, line@.len() as int) =~= line@);
    assert(fields@.map_values(|f: String| f@) =~= Seq::<Seq<char>>::empty());
    loop
        invariant
            start <= line@.len(),
            n == line@.len(),
            fields_spec(line@) == fields@.map_values(|f: String| f@) + fields_spec(
                line@.subrange(start as int, line@.len() as int),
            ),
        decreases line@.len() - start,
    {
        let ghost rest = line@.subrange(start as int, line@.len() as int);
        proof {
            lemma_find_char_shift(line@, '\t', start as int, start as int);
            lemma_find_char_bounds(line@, '\t', start as int);
        }
        match find_char_at(line, '\t', start) {
            Some(j) => {
                assert(j < line@.len());
                let field = string_of_range(line, start, j);
                assert(field@ =~= rest.subrange(0, j - start));
                assert(rest.subrange(j - start + 1, rest.len() as int) =~= line@.subrange(
                    j + 1,
                    line@.len() as int,
                ));
                let ghost before = fields@.map_values(|f: String| f@);
                fields.push(field);
                assert(fields@.map_values(|f: String| f@) =~= before.push(field@));
                assert(fields@.map_values(|f: String| f@) + fields_spec(
                    line@.subrange(j + 1, line@.len() as int),
                ) =~= before + (seq![field@] + fields_spec(
                    line@.subrange(j + 1, line@.len() as int),
                )));
                start = j + 1;
            },
            None => {
                let field = string_of_range(line, start, line.len());
                assert(field@ =~= rest);
                let ghost before = fields@.map_values(|f: String| f@);
                fields.push(field);
                assert(fields@.map_values(|f: String| f@) =~= before + seq![rest]);
                return fields;
            },
        }
    }
}

} // verus!
