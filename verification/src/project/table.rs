//! A map from string keys to values, kept as a vector sorted by key with no key twice: the
//! order in which the cache files list their entries.
use crate::text::chars_of;
use vstd::prelude::*;

verus! {

/// Strict lexicographic order on character sequences, by code point.
pub open spec fn seq_lt(a: Seq<char>, b: Seq<char>) -> bool
    decreases a.len(),
{
    if a.len() == 0 {
        b.len() > 0
    } else if b.len() == 0 {
        false
    } else if a[0] != b[0] {
        (a[0] as int) < (b[0] as int)
    } else {
        seq_lt(a.drop_first(), b.drop_first())
    }
}

/// Character `x` comes before a different character `y` in the order of paths: the
/// separator `/` before every other character, the others by code point. Compared character
/// by character, this orders relative paths as `Path` orders their components (`a/b` before
/// `a.b`, since the component `a` comes before `a.b`).
pub open spec fn path_char_lt(x: char, y: char) -> bool {
    if x == '/' {
        true
    } else if y == '/' {
        false
    } else {
        (x as int) < (y as int)
    }
}

/// Strict lexicographic order on paths written as character sequences, by `path_char_lt`.
pub open spec fn path_lt(a: Seq<char>, b: Seq<char>) -> bool
    decreases a.len(),
{
    if a.len() == 0 {
        b.len() > 0
    } else if b.len() == 0 {
        false
    } else if a[0] != b[0] {
        path_char_lt(a[0], b[0])
    } else {
        path_lt(a.drop_first(), b.drop_first())
    }
}

/// The order of a table's keys: that of paths, or that of strings.
pub open spec fn key_lt(a: Seq<char>, b: Seq<char>, by_path: bool) -> bool {
    if by_path {
        path_lt(a, b)
    } else {
        seq_lt(a, b)
    }
}

/// The path order too is total and strict.
pub proof fn lemma_path_lt_total(a: Seq<char>, b: Seq<char>)
    ensures
        a != b ==> path_lt(a, b) || path_lt(b, a),
        !(path_lt(a, b) && path_lt(b, a)),
        !path_lt(a, a),
    decreases a.len(),
{
    if a.len() > 0 {
        lemma_path_lt_total(a.drop_first(), a.drop_first());
    }
    if a.len() > 0 && b.len() > 0 {
        lemma_path_lt_total(a.drop_first(), b.drop_first());
        if a[0] != b[0] && a[0] != '/' && b[0] != '/' {
            assert(a[0] as int != b[0] as int);
        }
        if a[0] == b[0] && a.drop_first() == b.drop_first() {
            assert(a =~= seq![a[0]] + a.drop_first());
            assert(b =~= seq![b[0]] + b.drop_first());
        }
    } else if a.len() == 0 && b.len() == 0 {
        assert(a =~= b);
    }
}

/// Either key order is total and strict.
pub proof fn lemma_key_lt_total(a: Seq<char>, b: Seq<char>, by_path: bool)
    ensures
        a != b ==> key_lt(a, b, by_path) || key_lt(b, a, by_path),
        !(key_lt(a, b, by_path) && key_lt(b, a, by_path)),
        !key_lt(a, a, by_path),
{
    lemma_seq_lt_total(a, b);
    lemma_path_lt_total(a, b);
}

/// Two different sequences are ordered one way or the other, and never both ways.
pub proof fn lemma_seq_lt_total(a: Seq<char>, b: Seq<char>)
    ensures
        a != b ==> seq_lt(a, b) || seq_lt(b, a),
        !(seq_lt(a, b) && seq_lt(b, a)),
        !seq_lt(a, a),
    decreases a.len(),
{
    if a.len() > 0 {
        lemma_seq_lt_total(a.drop_first(), a.drop_first());
    }
    if a.len() > 0 && b.len() > 0 {
        lemma_seq_lt_total(a.drop_first(), b.drop_first());
        if a[0] == b[0] && a.drop_first() == b.drop_first() {
            assert(a =~= seq![a[0]] + a.drop_first());
            assert(b =~= seq![b[0]] + b.drop_first());
        }
    } else if a.len() == 0 && b.len() == 0 {
        assert(a =~= b);
    }
}

/// `a` comes strictly before `b` in the key order (of paths when `by_path`).
pub fn key_order_less(a: &[char], b: &[char], by_path: bool) -> (r: bool)
    ensures
        r == key_lt(a@, b@, by_path),
{
    if !by_path {
        return key_less(a, b);
    }
    let mut i: usize = 0;
    assert(a@.skip(0) =~= a@ && b@.skip(0) =~= b@);
    while i < a.len() && i < b.len()
        invariant
            i <= a@.len(),
            i <= b@.len(),
            by_path,
            path_lt(a@, b@) == path_lt(a@.skip(i as int), b@.skip(i as int)),
        decreases a@.len() - i,
    {
        assert(a@.skip(i as int).drop_first() =~= a@.skip(i + 1));
        assert(b@.skip(i as int).drop_first() =~= b@.skip(i + 1));
        if a[i] != b[i] {
            let x = a[i];
            let y = b[i];
            let r = x == '/' || (y != '/' && x < y);
            proof {
                assert(a@.skip(i as int)[0] == x && b@.skip(i as int)[0] == y);
                assert(r == path_char_lt(x, y));
                assert(a@.skip(i as int).len() > 0 && b@.skip(i as int).len() > 0);
                assert(path_lt(a@.skip(i as int), b@.skip(i as int)) == path_char_lt(x, y));
            }
            return r;
        }
        i += 1;
    }
    i == a.len() && i < b.len()
}

/// `a` comes strictly before `b`.
pub fn key_less(a: &[char], b: &[char]) -> (r: bool)
    ensures
        r == seq_lt(a@, b@),
{
    let mut i: usize = 0;
    assert(a@.skip(0) =~= a@ && b@.skip(0) =~= b@);
    while i < a.len() && i < b.len()
        invariant
            i <= a@.len(),
            i <= b@.len(),
            seq_lt(a@, b@) == seq_lt(a@.skip(i as int), b@.skip(i as int)),
        decreases a@.len() - i,
    {
        assert(a@.skip(i as int).drop_first() =~= a@.skip(i + 1));
        assert(b@.skip(i as int).drop_first() =~= b@.skip(i + 1));
        if a[i] != b[i] {
            return a[i] < b[i];
        }
        i += 1;
    }
    i == a.len() && i < b.len()
}

/// No key occurs twice.
pub open spec fn table_unique<V>(s: Seq<(String, V)>) -> bool {
    forall|i: int, j: int| 0 <= i < j < s.len() ==> (#[trigger] s[i]).0@ != (#[trigger] s[j]).0@
}

/// The entries are sorted by key in the key order (of paths when `by_path`), each key once.
pub open spec fn table_wf<V>(s: Seq<(String, V)>, by_path: bool) -> bool {
    &&& table_unique(s)
    &&& forall|i: int| 0 <= i < s.len() - 1 ==> key_lt((#[trigger] s[i]).0@, s[i + 1].0@, by_path)
}

/// Some entry has the key.
pub open spec fn has_key<V>(s: Seq<(String, V)>, key: Seq<char>) -> bool {
    exists|i: int| 0 <= i < s.len() && (#[trigger] s[i]).0@ == key
}

/// The entries as a map from key to value.
pub open spec fn table_view<V>(s: Seq<(String, V)>) -> Map<Seq<char>, V> {
    Map::new(
        |k: Seq<char>| has_key(s, k),
        |k: Seq<char>| s[choose|i: int| 0 <= i < s.len() && (#[trigger] s[i]).0@ == k].1,
    )
}

/// Entry `i` is what the map gives for its key.
pub proof fn lemma_table_view_at<V>(s: Seq<(String, V)>, i: int)
    requires
        table_unique(s),
        0 <= i < s.len(),
    ensures
        table_view(s).dom().contains(s[i].0@),
        table_view(s)[s[i].0@] == s[i].1,
{
    let k = s[i].0@;
    assert(has_key(s, k));
    let j = choose|j: int| 0 <= j < s.len() && (#[trigger] s[j]).0@ == k;
    if j != i {
        if j < i {
            assert(s[j].0@ != s[i].0@);
        } else {
            assert(s[i].0@ != s[j].0@);
        }
    }
}

/// The index of the entry with the key, if any.
pub fn table_find<V>(s: &Vec<(String, V)>, key: &str) -> (r: Option<usize>)
    ensures
        r matches Some(i) ==> i < s@.len() && s@[i as int].0@ == key@,
        r is None ==> !has_key(s@, key@),
{
    let k = chars_of(key);
    let mut i: usize = 0;
    while i < s.len()
        invariant
            i <= s@.len(),
            k@ == key@,
            forall|j: int| 0 <= j < i ==> (#[trigger] s@[j]).0@ != key@,
        decreases s@.len() - i,
    {
        let c = chars_of(s[i].0.as_str());
        if crate::text::chars_eq(&c, &k) {
            return Some(i);
        }
        i += 1;
    }
    None
}

/// The value stored under the key.
pub fn table_get<'a, V>(s: &'a Vec<(String, V)>, key: &str) -> (r: Option<&'a V>)
    requires
        table_unique(s@),
    ensures
        r is Some <==> table_view(s@).dom().contains(key@),
        r matches Some(v) ==> *v == table_view(s@)[key@],
{
    match table_find(s, key) {
        Some(i) => {
            proof {
                lemma_table_view_at(s@, i as int);
            }
            Some(&s[i].1)
        },
        None => None,
    }
}

/// Stores `value` under `key`, replacing what was there and keeping the order.
#[verifier::rlimit(30)]
pub fn table_insert<V>(s: &mut Vec<(String, V)>, key: String, value: V, by_path: bool)
    requires
        table_wf(old(s)@, by_path),
    ensures
        table_wf(final(s)@, by_path),
        table_view(final(s)@) == table_view(old(s)@).insert(key@, value),
        final(s)@.len() == old(s)@.len() + (if table_view(old(s)@).dom().contains(key@) {
            0int
        } else {
            1int
        }),
{
    let ghost k = key@;
    match table_find(s, key.as_str()) {
        Some(i) => {
            let ghost before = s@;
            let removed = s.remove(i);
            s.insert(i, (key, value));
            assert(s@ =~= before.update(i as int, (key, value)));
            proof {
                lemma_table_update(before, i as int, (key, value), by_path);
                lemma_table_view_at(before, i as int);
            }
        },
        None => {
            let kc = chars_of(key.as_str());
            let mut p: usize = 0;
            while p < s.len()
                invariant
                    p <= s@.len(),
                    kc@ == k,
                    !has_key(s@, k),
                    table_wf(s@, by_path),
                    forall|j: int| 0 <= j < p ==> key_lt((#[trigger] s@[j]).0@, k, by_path),
                ensures
                    p <= s@.len(),
                    forall|j: int| 0 <= j < p ==> key_lt((#[trigger] s@[j]).0@, k, by_path),
                    p < s@.len() ==> !key_lt(s@[p as int].0@, k, by_path),
                decreases s@.len() - p,
            {
                let c = chars_of(s[p].0.as_str());
                if !key_order_less(&c, &kc, by_path) {
                    break;
                }
                p += 1;
            }
            let ghost before = s@;
            proof {
                if p < before.len() {
                    assert(before[p as int].0@ != k);
                    lemma_key_lt_total(before[p as int].0@, k, by_path);
                }
            }
            s.insert(p, (key, value));
            proof {
                lemma_table_insert_at(before, p as int, (key, value), by_path);
            }
        },
    }
}

/// Replacing the value of an entry keeps the order and updates the map.
proof fn lemma_table_update<V>(s: Seq<(String, V)>, i: int, entry: (String, V), by_path: bool)
    requires
        table_wf(s, by_path),
        0 <= i < s.len(),
        s[i].0@ == entry.0@,
    ensures
        table_wf(s.update(i, entry), by_path),
        table_view(s.update(i, entry)) == table_view(s).insert(entry.0@, entry.1),
{
    let t = s.update(i, entry);
    assert(forall|j: int| 0 <= j < s.len() ==> (#[trigger] t[j]).0@ == s[j].0@);
    assert(table_wf(t, by_path));
    assert forall|k: Seq<char>| #[trigger] table_view(t).dom().contains(k) <==> table_view(
        s,
    ).insert(entry.0@, entry.1).dom().contains(k) by {
        if has_key(t, k) {
            let j = choose|j: int| 0 <= j < t.len() && (#[trigger] t[j]).0@ == k;
            assert(s[j].0@ == k);
        }
        if has_key(s, k) {
            let j = choose|j: int| 0 <= j < s.len() && (#[trigger] s[j]).0@ == k;
            assert(t[j].0@ == k);
        }
        if k == entry.0@ {
            assert(t[i].0@ == k);
        }
    }
    assert forall|k: Seq<char>| #[trigger] table_view(t).dom().contains(k) implies table_view(
        t,
    )[k] == table_view(s).insert(entry.0@, entry.1)[k] by {
        let j = choose|j: int| 0 <= j < t.len() && (#[trigger] t[j]).0@ == k;
        lemma_table_view_at(t, j);
        if j != i {
            lemma_table_view_at(s, j);
        }
    }
    assert(table_view(t) =~= table_view(s).insert(entry.0@, entry.1));
}

/// Inserting a new key at its sorted place keeps the order and extends the map.
proof fn lemma_table_insert_at<V>(s: Seq<(String, V)>, p: int, entry: (String, V), by_path: bool)
    requires
        table_wf(s, by_path),
        0 <= p <= s.len(),
        !has_key(s, entry.0@),
        forall|j: int| 0 <= j < p ==> key_lt((#[trigger] s[j]).0@, entry.0@, by_path),
        p < s.len() ==> key_lt(entry.0@, s[p].0@, by_path),
    ensures
        table_wf(s.insert(p, entry), by_path),
        table_view(s.insert(p, entry)) == table_view(s).insert(entry.0@, entry.1),
{
    lemma_table_insert_wf(s, p, entry, by_path);
    lemma_table_insert_view(s, p, entry, by_path);
}

/// Inserting a new key at its sorted place keeps the order.
#[verifier::rlimit(80)]
#[verifier::spinoff_prover]
proof fn lemma_table_insert_wf<V>(s: Seq<(String, V)>, p: int, entry: (String, V), by_path: bool)
    requires
        table_wf(s, by_path),
        0 <= p <= s.len(),
        !has_key(s, entry.0@),
        forall|j: int| 0 <= j < p ==> key_lt((#[trigger] s[j]).0@, entry.0@, by_path),
        p < s.len() ==> key_lt(entry.0@, s[p].0@, by_path),
    ensures
        table_wf(s.insert(p, entry), by_path),
{
    let t = s.insert(p, entry);
    assert forall|i: int, j: int| 0 <= i < j < t.len() implies (#[trigger] t[i]).0@ != (
    #[trigger] t[j]).0@ by {
        if i == p {
            assert(t[j] == s[j - 1]);
        } else if j == p {
            assert(t[i] == s[i]);
        } else {
            let si = if i < p {
                i
            } else {
                i - 1
            };
            let sj = if j < p {
                j
            } else {
                j - 1
            };
            assert(t[i] == s[si]);
            assert(t[j] == s[sj]);
        }
    }
    assert forall|i: int| 0 <= i < t.len() - 1 implies key_lt((#[trigger] t[i]).0@, t[i + 1].0@, by_path) by {
        if i + 1 < p {
            assert(t[i] == s[i] && t[i + 1] == s[i + 1]);
        } else if i + 1 == p {
            assert(t[i] == s[i]);
        } else if i == p {
            assert(t[i + 1] == s[i]);
        } else {
            assert(t[i] == s[i - 1] && t[i + 1] == s[i]);
        }
    }
}

/// Inserting a new key extends the map.
#[verifier::rlimit(30)]
proof fn lemma_table_insert_view<V>(s: Seq<(String, V)>, p: int, entry: (String, V), by_path: bool)
    requires
        table_wf(s, by_path),
        table_wf(s.insert(p, entry), by_path),
        0 <= p <= s.len(),
        !has_key(s, entry.0@),
        forall|j: int| 0 <= j < p ==> key_lt((#[trigger] s[j]).0@, entry.0@, by_path),
        p < s.len() ==> key_lt(entry.0@, s[p].0@, by_path),
    ensures
        table_view(s.insert(p, entry)) == table_view(s).insert(entry.0@, entry.1),
{
    let t = s.insert(p, entry);
    assert forall|k: Seq<char>| #[trigger] table_view(t).dom().contains(k) <==> table_view(
        s,
    ).insert(entry.0@, entry.1).dom().contains(k) by {
        if has_key(t, k) {
            let j = choose|j: int| 0 <= j < t.len() && (#[trigger] t[j]).0@ == k;
            if j < p {
                assert(s[j].0@ == k);
            } else if j > p {
                assert(s[j - 1].0@ == k);
            }
        }
        if has_key(s, k) {
            let j = choose|j: int| 0 <= j < s.len() && (#[trigger] s[j]).0@ == k;
            if j < p {
                assert(t[j].0@ == k);
            } else {
                assert(t[j + 1].0@ == k);
            }
        }
        if k == entry.0@ {
            assert(t[p].0@ == k);
        }
    }
    assert forall|k: Seq<char>| #[trigger] table_view(t).dom().contains(k) implies table_view(
        t,
    )[k] == table_view(s).insert(entry.0@, entry.1)[k] by {
        let j = choose|j: int| 0 <= j < t.len() && (#[trigger] t[j]).0@ == k;
        lemma_table_view_at(t, j);
        if j < p {
            assert(t[j] == s[j]);
            lemma_table_view_at(s, j);
        } else if j > p {
            assert(t[j] == s[j - 1]);
            lemma_table_view_at(s, j - 1);
        }
    }
    assert(table_view(t) =~= table_view(s).insert(entry.0@, entry.1));
}

/// The path order is transitive.
pub proof fn lemma_path_lt_trans(a: Seq<char>, b: Seq<char>, c: Seq<char>)
    requires
        path_lt(a, b),
        path_lt(b, c),
    ensures
        path_lt(a, c),
    decreases a.len(),
{
    if a.len() > 0 && b.len() > 0 && c.len() > 0 && a[0] == b[0] && b[0] == c[0] {
        lemma_path_lt_trans(a.drop_first(), b.drop_first(), c.drop_first());
    }
}

/// The string order is transitive.
pub proof fn lemma_seq_lt_trans(a: Seq<char>, b: Seq<char>, c: Seq<char>)
    requires
        seq_lt(a, b),
        seq_lt(b, c),
    ensures
        seq_lt(a, c),
    decreases a.len(),
{
    if a.len() > 0 && b.len() > 0 && c.len() > 0 && a[0] == b[0] && b[0] == c[0] {
        lemma_seq_lt_trans(a.drop_first(), b.drop_first(), c.drop_first());
    }
}

/// Either key order is transitive.
pub proof fn lemma_key_lt_trans(a: Seq<char>, b: Seq<char>, c: Seq<char>, by_path: bool)
    requires
        key_lt(a, b, by_path),
        key_lt(b, c, by_path),
    ensures
        key_lt(a, c, by_path),
{
    if by_path {
        lemma_path_lt_trans(a, b, c);
    } else {
        lemma_seq_lt_trans(a, b, c);
    }
}

/// In a sorted table every key comes before every later one.
pub proof fn lemma_sorted_pair<V>(s: Seq<(String, V)>, i: int, j: int, by_path: bool)
    requires
        table_wf(s, by_path),
        0 <= i < j < s.len(),
    ensures
        key_lt(s[i].0@, s[j].0@, by_path),
    decreases j - i,
{
    if j > i + 1 {
        lemma_sorted_pair(s, i, j - 1, by_path);
        assert(key_lt(s[j - 1].0@, s[j].0@, by_path));
        lemma_key_lt_trans(s[i].0@, s[j - 1].0@, s[j].0@, by_path);
    }
}

/// Two sorted tables with the same keys hold them at the same positions: the order of a
/// table's entries is fixed by its keys.
pub proof fn lemma_sorted_same_keys<V, W>(a: Seq<(String, V)>, b: Seq<(String, W)>, by_path: bool)
    requires
        table_wf(a, by_path),
        table_wf(b, by_path),
        forall|k: Seq<char>| has_key(a, k) <==> has_key(b, k),
    ensures
        a.len() == b.len(),
        forall|i: int| 0 <= i < a.len() ==> (#[trigger] a[i]).0@ == b[i].0@,
    decreases a.len(),
{
    if a.len() == 0 {
        if b.len() > 0 {
            assert(has_key(b, b[0].0@));
        }
    } else {
        assert(has_key(a, a[0].0@));
        assert(b.len() > 0);
        assert(has_key(b, b[0].0@));
        let ka = a[0].0@;
        let kb = b[0].0@;
        let j = choose|j: int| 0 <= j < b.len() && (#[trigger] b[j]).0@ == ka;
        let i = choose|i: int| 0 <= i < a.len() && (#[trigger] a[i]).0@ == kb;
        if j > 0 {
            lemma_sorted_pair(b, 0, j, by_path);
        }
        if i > 0 {
            lemma_sorted_pair(a, 0, i, by_path);
        }
        lemma_key_lt_total(ka, kb, by_path);
        assert(ka == kb);
        let a1 = a.drop_first();
        let b1 = b.drop_first();
        assert forall|k: Seq<char>| has_key(a1, k) <==> has_key(b1, k) by {
            if has_key(a1, k) {
                let x = choose|x: int| 0 <= x < a1.len() && (#[trigger] a1[x]).0@ == k;
                assert(a[x + 1].0@ == k);
                assert(k != ka);
                assert(has_key(b, k));
                let y = choose|y: int| 0 <= y < b.len() && (#[trigger] b[y]).0@ == k;
                assert(y != 0);
                assert(b1[y - 1].0@ == k);
            }
            if has_key(b1, k) {
                let x = choose|x: int| 0 <= x < b1.len() && (#[trigger] b1[x]).0@ == k;
                assert(b[x + 1].0@ == k);
                assert(k != kb);
                assert(has_key(a, k));
                let y = choose|y: int| 0 <= y < a.len() && (#[trigger] a[y]).0@ == k;
                assert(y != 0);
                assert(a1[y - 1].0@ == k);
            }
        }
        assert forall|x: int, y: int| 0 <= x < y < a1.len() implies (#[trigger] a1[x]).0@ != (
        #[trigger] a1[y]).0@ by {
            assert(a1[x] == a[x + 1] && a1[y] == a[y + 1]);
        }
        assert forall|x: int| 0 <= x < a1.len() - 1 implies key_lt(
            (#[trigger] a1[x]).0@,
            a1[x + 1].0@,
            by_path,
        ) by {
            assert(a1[x] == a[x + 1] && a1[x + 1] == a[x + 2]);
        }
        assert forall|x: int, y: int| 0 <= x < y < b1.len() implies (#[trigger] b1[x]).0@ != (
        #[trigger] b1[y]).0@ by {
            assert(b1[x] == b[x + 1] && b1[y] == b[y + 1]);
        }
        assert forall|x: int| 0 <= x < b1.len() - 1 implies key_lt(
            (#[trigger] b1[x]).0@,
            b1[x + 1].0@,
            by_path,
        ) by {
            assert(b1[x] == b[x + 1] && b1[x + 1] == b[x + 2]);
        }
        lemma_sorted_same_keys(a1, b1, by_path);
        assert forall|x: int| 0 <= x < a.len() implies (#[trigger] a[x]).0@ == b[x].0@ by {
            if x > 0 {
                assert(a[x] == a1[x - 1] && b[x] == b1[x - 1]);
            }
        }
    }
}

} // verus!
