//! Text building blocks of the generator, proved against `spec`.
use crate::text::{
    chars_of, is_identifier_continue, is_identifier_start, push_all, push_str, starts_with_at,
    occurs_at,
};
use crate::transpiler::compiler::ast::strings_view;
use super::spec::{
    ends_with, escape_format, interpolation_end, interpolations, is_identifier_like, join,
    replace_all, starts_with,
};
use vstd::prelude::*;

verus! {

/// The texts of a sequence of character vectors.
pub open spec fn texts(v: Seq<Vec<char>>) -> Seq<Seq<char>> {
    v.map_values(|x: Vec<char>| x@)
}

pub fn ends_with_str(s: &[char], suffix: &str) -> (b: bool)
    ensures
        b == ends_with(s@, suffix@),
{
    let x = chars_of(suffix);
    if x.len() > s.len() {
        return false;
    }
    let r = starts_with_at(s, s.len() - x.len(), &x);
    proof {
        assert(occurs_at(s@, s@.len() - x@.len(), x@) == ends_with(s@, x@));
    }
    r
}

pub fn starts_with_str(s: &[char], prefix: &str) -> (b: bool)
    ensures
        b == starts_with(s@, prefix@),
{
    let x = chars_of(prefix);
    starts_with_at(s, 0, &x)
}

/// Appends the elements of `parts` to `out`, with `sep` between them.
pub fn push_join(out: &mut Vec<char>, parts: &Vec<Vec<char>>, sep: &str)
    ensures
        final(out)@ == old(out)@ + join(texts(parts@), sep@),
{
    let ghost start = out@;
    let sep_chars = chars_of(sep);
    let mut i: usize = 0;
    assert(texts(parts@).take(0) =~= Seq::<Seq<char>>::empty());
    while i < parts.len()
        invariant
            i <= parts@.len(),
            sep_chars@ == sep@,
            out@ == start + join(texts(parts@).take(i as int), sep@),
        decreases parts@.len() - i,
    {
        let ghost before = texts(parts@).take(i as int);
        let ghost after = texts(parts@).take(i + 1);
        assert(after.drop_last() =~= before);
        assert(after.last() == parts@[i as int]@);
        if i > 0 {
            push_all(out, &sep_chars);
        }
        push_all(out, &parts[i]);
        assert(out@ =~= start + join(after, sep@));
        i += 1;
    }
    assert(texts(parts@).take(parts@.len() as int) =~= texts(parts@));
}

/// Appends the strings of `parts` to `out`, with `sep` between them.
pub fn push_join_strings(out: &mut Vec<char>, parts: &Vec<String>, sep: &str)
    ensures
        final(out)@ == old(out)@ + join(strings_view(parts@), sep@),
{
    let ghost start = out@;
    let sep_chars = chars_of(sep);
    let mut i: usize = 0;
    assert(strings_view(parts@).take(0) =~= Seq::<Seq<char>>::empty());
    while i < parts.len()
        invariant
            i <= parts@.len(),
            sep_chars@ == sep@,
            out@ == start + join(strings_view(parts@).take(i as int), sep@),
        decreases parts@.len() - i,
    {
        let ghost before = strings_view(parts@).take(i as int);
        let ghost after = strings_view(parts@).take(i + 1);
        assert(after.drop_last() =~= before);
        assert(after.last() == parts@[i as int]@);
        if i > 0 {
            push_all(out, &sep_chars);
        }
        push_str(out, parts[i].as_str());
        assert(out@ =~= start + join(after, sep@));
        i += 1;
    }
    assert(strings_view(parts@).take(parts@.len() as int) =~= strings_view(parts@));
}

/// Appends `s[start..end]` with its braces doubled.
pub fn push_escaped_format(out: &mut Vec<char>, s: &[char], start: usize, end: usize)
    requires
        start <= end <= s@.len(),
    ensures
        final(out)@ == old(out)@ + escape_format(s@.subrange(start as int, end as int)),
{
    let ghost origin = out@;
    let mut i = start;
    assert(s@.subrange(start as int, start as int) =~= Seq::<char>::empty());
    while i < end
        invariant
            start <= i <= end <= s@.len(),
            out@ == origin + escape_format(s@.subrange(start as int, i as int)),
        decreases end - i,
    {
        let ghost piece = s@.subrange(start as int, i + 1);
        assert(piece.drop_last() =~= s@.subrange(start as int, i as int));
        let c = s[i];
        if c == '{' {
            push_str(out, "{{");
        } else if c == '}' {
            push_str(out, "}}");
        } else {
            out.push(c);
        }
        assert(out@ =~= origin + escape_format(piece));
        i += 1;
    }
}

/// `s` with every occurrence of `from` replaced by `to`, scanning from the left.
pub fn replace_chars(s: &[char], from: &[char], to: &[char]) -> (r: Vec<char>)
    requires
        from@.len() > 0,
    ensures
        r@ == replace_all(s@, from@, to@),
{
    let mut out: Vec<char> = Vec::new();
    let mut i: usize = 0;
    assert(s@.subrange(0, s@.len() as int) =~= s@);
    while i < s.len()
        invariant
            i <= s@.len(),
            from@.len() > 0,
            replace_all(s@, from@, to@) == out@ + replace_all(
                s@.subrange(i as int, s@.len() as int),
                from@,
                to@,
            ),
        decreases s@.len() - i,
    {
        let ghost rest = s@.subrange(i as int, s@.len() as int);
        if starts_with_at(s, i, from) {
            assert(rest.subrange(0, from@.len() as int) =~= s@.subrange(
                i as int,
                i + from@.len(),
            ));
            assert(rest.subrange(from@.len() as int, rest.len() as int) =~= s@.subrange(
                i + from@.len(),
                s@.len() as int,
            ));
            push_all(&mut out, to);
            i += from.len();
        } else {
            assert(!starts_with(rest, from@)) by {
                if from@.len() <= rest.len() {
                    assert(rest.subrange(0, from@.len() as int) =~= s@.subrange(
                        i as int,
                        i + from@.len(),
                    ));
                }
            }
            assert(rest.subrange(1, rest.len() as int) =~= s@.subrange(i + 1, s@.len() as int));
            out.push(s[i]);
            i += 1;
        }
    }
    assert(s@.subrange(s@.len() as int, s@.len() as int) =~= Seq::<char>::empty());
    out
}

pub fn identifier_like(s: &[char]) -> (b: bool)
    ensures
        b == is_identifier_like(s@),
{
    if s.len() == 0 || !is_identifier_start(s[0]) {
        return false;
    }
    let mut i: usize = 0;
    while i < s.len()
        invariant
            i <= s@.len(),
            forall|j: int| 0 <= j < i ==> crate::text::is_ident_continue(#[trigger] s@[j]),
        decreases s@.len() - i,
    {
        if !is_identifier_continue(s[i]) {
            return false;
        }
        i += 1;
    }
    true
}

/// Interpolation positions as integers.
pub open spec fn spots_view(v: Seq<(usize, usize)>) -> Seq<(int, int)> {
    v.map_values(|p: (usize, usize)| (p.0 as int, p.1 as int))
}

/// Interpolations that start at or after `from`, each at least `{}` long, inside the first
/// `len` characters, in order and without overlap.
pub open spec fn spots_ordered(spots: Seq<(int, int)>, from: int, len: int) -> bool {
    &&& forall|k: int|
        0 <= k < spots.len() ==> from <= (#[trigger] spots[k]).0 && spots[k].0 + 2 <= spots[k].1
            <= len
    &&& forall|k: int| 0 <= k < spots.len() - 1 ==> (#[trigger] spots[k]).1 <= spots[k + 1].0
}

/// An interpolation ends after its body starts and inside the text.
pub proof fn lemma_interpolation_end_bounds(s: Seq<char>, j: int, depth: nat)
    ensures
        interpolation_end(s, j, depth) matches Some(e) ==> j < e <= s.len(),
    decreases s.len() + 1 - j,
{
    if j < 0 || j >= s.len() {
    } else if s[j] == '\\' {
        lemma_interpolation_end_bounds(s, j + 2, depth);
    } else if s[j] == '{' {
        lemma_interpolation_end_bounds(s, j + 1, depth + 1);
    } else if s[j] == '}' {
        if depth > 1 {
            lemma_interpolation_end_bounds(s, j + 1, (depth - 1) as nat);
        }
    } else {
        lemma_interpolation_end_bounds(s, j + 1, depth);
    }
}

/// The interpolations found from `i` are ordered and inside the text.
pub proof fn lemma_interpolations_ordered(s: Seq<char>, i: int)
    requires
        0 <= i,
    ensures
        interpolations(s, i) matches Ok(spots) ==> spots_ordered(spots, i, s.len() as int),
    decreases s.len() + 1 - i,
{
    if i >= s.len() {
    } else if s[i] == '\\' {
        lemma_interpolations_ordered(s, i + 2);
    } else if s[i] == '{' {
        lemma_interpolation_end_bounds(s, i + 1, 1);
        match interpolation_end(s, i + 1, 1) {
            Some(end) => {
                if i < end <= s.len() {
                    lemma_interpolations_ordered(s, end);
                    match interpolations(s, end) {
                        Ok(rest) => {
                            let spots = seq![(i, end)] + rest;
                            assert forall|k: int| 0 <= k < spots.len() implies i <= (
                            #[trigger] spots[k]).0 && spots[k].0 + 2 <= spots[k].1 <= s.len() by {
                                if k > 0 {
                                    assert(spots[k] == rest[k - 1]);
                                }
                            }
                            assert forall|k: int| 0 <= k < spots.len() - 1 implies (
                            #[trigger] spots[k]).1 <= spots[k + 1].0 by {
                                if k > 0 {
                                    assert(spots[k] == rest[k - 1]);
                                    assert(spots[k + 1] == rest[k]);
                                } else {
                                    assert(spots[1] == rest[0]);
                                }
                            }
                        },
                        Err(_) => {},
                    }
                }
            },
            None => {},
        }
    } else {
        lemma_interpolations_ordered(s, i + 1);
    }
}

/// The `{...}` interpolations of the content of a string literal.
pub fn find_interpolations(s: &[char]) -> (r: Result<Vec<(usize, usize)>, usize>)
    ensures
        r matches Ok(v) ==> interpolations(s@, 0) == Ok::<Seq<(int, int)>, int>(spots_view(v@)),
        r matches Err(at) ==> interpolations(s@, 0) == Err::<Seq<(int, int)>, int>(at as int)
            && at < s@.len(),
{
    let mut found: Vec<(usize, usize)> = Vec::new();
    let mut i: usize = 0;
    while i < s.len()
        invariant
            i <= s@.len(),
            interpolations(s@, 0) == (match interpolations(s@, i as int) {
                Ok(rest) => Ok(spots_view(found@) + rest),
                Err(at) => Err(at),
            }),
            forall|k: int| 0 <= k < found@.len() ==> (#[trigger] found@[k]).0 < found@[k].1,
        decreases s@.len() - i,
    {
        let c = s[i];
        if c == '\\' {
            if s.len() - i <= 2 {
                assert(interpolations(s@, i + 2) == Ok::<Seq<(int, int)>, int>(seq![]));
                assert(spots_view(found@) + seq![] =~= spots_view(found@));
                return Ok(found);
            }
            i += 2;
        } else if c == '{' {
            proof {
                lemma_interpolation_end_bounds(s@, i + 1, 1);
            }
            match find_interpolation_end(s, i + 1) {
                Some(end) => {
                    let ghost before = found@;
                    found.push((i, end));
                    proof {
                        assert(spots_view(found@) =~= spots_view(before).push((i as int, end as int)));
                        match interpolations(s@, end as int) {
                            Ok(rest) => {
                                assert(spots_view(found@) + rest =~= spots_view(before) + (seq![
                                    (i as int, end as int),
                                ] + rest));
                            },
                            Err(_) => {},
                        }
                    }
                    i = end;
                },
                None => {
                    return Err(i);
                },
            }
        } else {
            i += 1;
        }
    }
    assert(spots_view(found@) + seq![] =~= spots_view(found@));
    Ok(found)
}

/// The end of the interpolation whose body starts at `j`.
fn find_interpolation_end(s: &[char], j: usize) -> (r: Option<usize>)
    requires
        j <= s@.len(),
    ensures
        match r {
            Some(e) => interpolation_end(s@, j as int, 1) == Some(e as int),
            None => interpolation_end(s@, j as int, 1) is None,
        },
{
    let mut k = j;
    let mut depth: u128 = 1;
    while k < s.len()
        invariant
            j <= k,
            depth >= 1,
            depth <= k - j + 1,
            interpolation_end(s@, j as int, 1) == interpolation_end(s@, k as int, depth as nat),
        decreases s@.len() + 1 - k,
    {
        let c = s[k];
        if c == '\\' {
            if s.len() - k < 2 {
                assert(interpolation_end(s@, k + 2, depth as nat) is None);
                return None;
            }
            k += 2;
        } else if c == '{' {
            depth += 1;
            k += 1;
        } else if c == '}' {
            if depth == 1 {
                return Some(k + 1);
            }
            depth -= 1;
            k += 1;
        } else {
            k += 1;
        }
    }
    None
}

} // verus!
