//! Normalization of urls into cache keys.
//!
//! A cache key is the url with the scheme and authority lowered to lower case
//! and the query parameters sorted, so that two urls that differ only in the
//! order of their query parameters share one cache entry.
use vstd::prelude::*;

use vstd::relations::{sorted_by, total_ordering};
use vstd::seq_lib::lemma_sorted_unique;

use crate::error::Error;
use crate::textops::{chars_of, lex_le, lex_le_x, lower_chars, lower_seq, string_from_chars};

verus! {

/// The first index at or after `i` where `"://"` stands in `s`.
pub open spec fn find_sep(s: Seq<char>, i: int) -> Option<int>
    recommends
        0 <= i,
    decreases s.len() - i,
{
    if i < 0 || i + 3 > s.len() {
        None
    } else if s[i] == ':' && s[i + 1] == '/' && s[i + 2] == '/' {
        Some(i)
    } else {
        find_sep(s, i + 1)
    }
}

/// The first index at or after `i` where the character `c` stands in `s`.
pub open spec fn find_char_from(s: Seq<char>, i: int, c: char) -> Option<int>
    recommends
        0 <= i,
    decreases s.len() - i,
{
    if i < 0 || i >= s.len() {
        None
    } else if s[i] == c {
        Some(i)
    } else {
        find_char_from(s, i + 1, c)
    }
}

/// Where a found character lies: at or after `i`, before the end, and on `c`.
pub proof fn lemma_find_char_from(s: Seq<char>, i: int, c: char)
    requires
        0 <= i,
    ensures
        match find_char_from(s, i, c) {
            Some(k) => i <= k < s.len() && s[k] == c,
            None => true,
        },
    decreases s.len() - i,
{
    if i < s.len() && s[i] != c {
        lemma_find_char_from(s, i + 1, c);
    }
}

/// The first index at or after `i` where the path or query begins (a `/` or a
/// `?`), or the length of `s` if neither occurs.
pub open spec fn find_path_start(s: Seq<char>, i: int) -> int
    recommends
        0 <= i <= s.len(),
    decreases s.len() - i,
{
    if i < 0 || i >= s.len() {
        s.len() as int
    } else if s[i] == '/' || s[i] == '?' {
        i
    } else {
        find_path_start(s, i + 1)
    }
}

/// Can `s` be normalized: does it have a nonempty scheme before `"://"`?
pub open spec fn url_parseable(s: Seq<char>) -> bool {
    match find_sep(s, 0) {
        Some(k) => k >= 1,
        None => false,
    }
}

/// `s` from index `i` on, split on `'&'`.
pub open spec fn split_from(s: Seq<char>, i: int) -> Seq<Seq<char>>
    recommends
        0 <= i <= s.len(),
    decreases s.len() - i,
{
    if !(0 <= i <= s.len()) {
        Seq::empty()
    } else {
        match find_char_from(s, i, '&') {
            Some(k) => {
                if i <= k < s.len() {
                    seq![s.subrange(i, k)] + split_from(s, k + 1)
                } else {
                    Seq::empty()
                }
            },
            None => seq![s.subrange(i, s.len() as int)],
        }
    }
}

/// `x` inserted before the first element of `s` not below it.
pub open spec fn insert_sorted(x: Seq<char>, s: Seq<Seq<char>>) -> Seq<Seq<char>>
    decreases s.len(),
{
    if s.len() == 0 {
        seq![x]
    } else if lex_le(x, s[0]) {
        seq![x] + s
    } else {
        seq![s[0]] + insert_sorted(x, s.drop_first())
    }
}

/// `s` sorted by insertion, lexicographically.
pub open spec fn sort_params(s: Seq<Seq<char>>) -> Seq<Seq<char>>
    decreases s.len(),
{
    if s.len() == 0 {
        Seq::empty()
    } else {
        insert_sorted(s.last(), sort_params(s.drop_last()))
    }
}

/// The elements of `s` joined with `'&'`.
pub open spec fn join_amp(s: Seq<Seq<char>>) -> Seq<char>
    decreases s.len(),
{
    if s.len() == 0 {
        Seq::empty()
    } else if s.len() == 1 {
        s[0]
    } else {
        join_amp(s.drop_last()) + seq!['&'] + s.last()
    }
}

/// The cache key of a parseable url: scheme and authority lowered, the path
/// kept, and the query parameters sorted.
pub open spec fn spec_cache_key(s: Seq<char>) -> Seq<char> {
    match find_sep(s, 0) {
        Some(sep) => {
            let e = find_path_start(s, sep + 3);
            match find_char_from(s, e, '?') {
                Some(q) => lower_seq(s.take(e)) + s.subrange(e, q) + seq!['?'] + join_amp(
                    sort_params(split_from(s, q + 1)),
                ),
                None => lower_seq(s.take(e)) + s.subrange(e, s.len() as int),
            }
        },
        None => s,
    }
}

/// The view of a sequence of character vectors.
pub open spec fn pv(s: Seq<Vec<char>>) -> Seq<Seq<char>> {
    s.map_values(|v: Vec<char>| v@)
}

/// The characters of `w` from `from` (inclusive) to `to` (exclusive).
pub(crate) fn sub_vec(w: &Vec<char>, from: usize, to: usize) -> (r: Vec<char>)
    requires
        from <= to <= w@.len(),
    ensures
        r@ == w@.subrange(from as int, to as int),
{
    let mut r: Vec<char> = Vec::new();
    let mut j: usize = from;
    while j < to
        invariant
            from <= j <= to <= w@.len(),
            r@ == w@.subrange(from as int, j as int),
        decreases to - j,
    {
        r.push(w[j]);
        proof {
            assert(r@ =~= w@.subrange(from as int, j as int + 1));
        }
        j = j + 1;
    }
    r
}

/// Executable [`find_sep`] from the start.
fn find_sep_x(w: &Vec<char>) -> (r: Option<usize>)
    ensures
        match r {
            Some(k) => find_sep(w@, 0) == Some(k as int) && k + 3 <= w@.len(),
            None => find_sep(w@, 0) is None,
        },
{
    let n = w.len();
    if n < 3 {
        return None;
    }
    let mut i: usize = 0;
    while i <= n - 3
        invariant
            n == w@.len(),
            3 <= n,
            i <= n,
            find_sep(w@, 0) == find_sep(w@, i as int),
        decreases n - i,
    {
        if w[i] == ':' && w[i + 1] == '/' && w[i + 2] == '/' {
            return Some(i);
        }
        i = i + 1;
    }
    None
}

/// Executable [`find_char_from`].
pub(crate) fn find_char_from_x(w: &Vec<char>, from: usize, c: char) -> (r: Option<usize>)
    requires
        from <= w@.len(),
    ensures
        match r {
            Some(k) => find_char_from(w@, from as int, c) == Some(k as int) && from <= k < w@.len()
                && w@[k as int] == c,
            None => find_char_from(w@, from as int, c) is None,
        },
{
    let n = w.len();
    let mut i: usize = from;
    while i < n
        invariant
            n == w@.len(),
            from <= i <= n,
            find_char_from(w@, from as int, c) == find_char_from(w@, i as int, c),
        decreases n - i,
    {
        if w[i] == c {
            return Some(i);
        }
        i = i + 1;
    }
    None
}

/// Executable [`find_path_start`].
fn find_path_start_x(w: &Vec<char>, from: usize) -> (r: usize)
    requires
        from <= w@.len(),
    ensures
        r as int == find_path_start(w@, from as int),
        from <= r <= w@.len(),
{
    let n = w.len();
    let mut i: usize = from;
    while i < n
        invariant
            n == w@.len(),
            from <= i <= n,
            find_path_start(w@, from as int) == find_path_start(w@, i as int),
        decreases n - i,
    {
        if w[i] == '/' || w[i] == '?' {
            return i;
        }
        i = i + 1;
    }
    n
}

/// Executable [`split_from`].
fn split_from_x(w: &Vec<char>, from: usize) -> (r: Vec<Vec<char>>)
    requires
        from <= w@.len(),
    ensures
        pv(r@) == split_from(w@, from as int),
{
    let n = w.len();
    let mut parts: Vec<Vec<char>> = Vec::new();
    let mut cur: usize = from;
    let mut opt = find_char_from_x(w, cur, '&');
    while opt.is_some()
        invariant
            n == w@.len(),
            cur <= n,
            match opt {
                Some(k) => find_char_from(w@, cur as int, '&') == Some(k as int) && cur <= k
                    < w@.len(),
                None => find_char_from(w@, cur as int, '&') is None,
            },
            split_from(w@, from as int) =~~= pv(parts@) + split_from(w@, cur as int),
        decreases w@.len() - cur,
    {
        let k = opt.unwrap();
        let ghost parts0 = parts@;
        parts.push(sub_vec(w, cur, k));
        proof {
            assert(pv(parts@) =~~= pv(parts0).push(w@.subrange(cur as int, k as int)));
        }
        cur = k + 1;
        opt = find_char_from_x(w, cur, '&');
    }
    let ghost parts0 = parts@;
    let tail = sub_vec(w, cur, w.len());
    parts.push(tail);
    proof {
        assert(pv(parts@) =~~= pv(parts0).push(w@.subrange(cur as int, w@.len() as int)));
        assert(pv(parts@) =~~= split_from(w@, from as int));
    }
    parts
}

/// Inserting before the first not-below element is what [`insert_sorted`] does.
proof fn lemma_insert_sorted_at(x: Seq<char>, s: Seq<Seq<char>>, idx: int)
    requires
        0 <= idx <= s.len(),
        forall|j: int| 0 <= j < idx ==> !lex_le(x, #[trigger] s[j]),
        idx < s.len() ==> lex_le(x, s[idx]),
    ensures
        insert_sorted(x, s) =~~= s.take(idx) + seq![x] + s.skip(idx),
    decreases s.len(),
{
    if s.len() == 0 {
        assert(insert_sorted(x, s) =~~= seq![x]);
    } else if idx == 0 {
        assert(s.take(0) + seq![x] + s.skip(0) =~~= seq![x] + s);
    } else {
        let d = s.drop_first();
        lemma_insert_sorted_at(x, d, idx - 1);
        assert(insert_sorted(x, s) =~~= seq![s[0]] + insert_sorted(x, d));
        assert(d.take(idx - 1) =~= s.subrange(1, idx));
        assert(d.skip(idx - 1) =~= s.skip(idx));
        assert(seq![s[0]] + (d.take(idx - 1) + seq![x] + d.skip(idx - 1)) =~~= s.take(idx)
            + seq![x] + s.skip(idx));
    }
}

/// The first index of `v` whose element is not lexicographically below `x`.
fn lower_bound(x: &Vec<char>, v: &Vec<Vec<char>>) -> (idx: usize)
    ensures
        idx <= v@.len(),
        forall|j: int| 0 <= j < idx ==> !lex_le(x@, pv(v@)[j]),
        idx < v@.len() ==> lex_le(x@, pv(v@)[idx as int]),
{
    let n = v.len();
    let mut idx: usize = 0;
    while idx < n
        invariant
            n == v@.len(),
            idx <= n,
            forall|j: int| 0 <= j < idx ==> !lex_le(x@, pv(v@)[j]),
        decreases n - idx,
    {
        if lex_le_x(x, &v[idx]) {
            return idx;
        }
        idx = idx + 1;
    }
    n
}

/// Executable [`insert_sorted`].
fn insert_sorted_x(x: Vec<char>, v: &mut Vec<Vec<char>>)
    ensures
        pv(final(v)@) == insert_sorted(x@, pv(old(v)@)),
{
    let idx = lower_bound(&x, v);
    let ghost v0 = v@;
    let ghost gidx = idx as int;
    proof {
        lemma_insert_sorted_at(x@, pv(v0), gidx);
    }
    v.insert(idx, x);
    proof {
        assert(pv(v@) =~~= pv(v0).take(gidx) + seq![x@] + pv(v0).skip(gidx));
    }
}

/// Executable [`sort_params`].
fn sort_params_x(parts: Vec<Vec<char>>) -> (r: Vec<Vec<char>>)
    ensures
        pv(r@) == sort_params(pv(parts@)),
{
    let n = parts.len();
    let mut acc: Vec<Vec<char>> = Vec::new();
    for i in 0..n
        invariant
            n == parts@.len(),
            pv(acc@) == sort_params(pv(parts@).take(i as int)),
    {
        let x = parts[i].clone();
        proof {
            assert(pv(parts@).take(i as int + 1).drop_last() =~~= pv(parts@).take(i as int));
            assert(pv(parts@).take(i as int + 1).last() == pv(parts@)[i as int]);
        }
        insert_sorted_x(x, &mut acc);
    }
    proof {
        assert(pv(parts@).take(n as int) =~~= pv(parts@));
    }
    acc
}

/// Executable [`join_amp`].
fn join_amp_x(v: &Vec<Vec<char>>) -> (r: Vec<char>)
    ensures
        r@ == join_amp(pv(v@)),
{
    let n = v.len();
    let mut r: Vec<char> = Vec::new();
    let mut i: usize = 0;
    while i < n
        invariant
            n == v@.len(),
            i <= n,
            r@ == join_amp(pv(v@).take(i as int)),
        decreases n - i,
    {
        let ghost r0 = r@;
        if i > 0 {
            r.push('&');
        }
        let mut part = sub_vec(&v[i], 0, v[i].len());
        proof {
            assert(part@ =~= v@[i as int]@);
        }
        r.append(&mut part);
        proof {
            let t = pv(v@).take(i as int + 1);
            assert(t.drop_last() =~~= pv(v@).take(i as int));
            assert(t.last() == pv(v@)[i as int]);
            if i == 0 {
                assert(r@ =~= join_amp(t));
            } else {
                assert(r@ =~= join_amp(t.drop_last()) + seq!['&'] + t.last());
            }
        }
        i = i + 1;
    }
    proof {
        assert(pv(v@).take(n as int) =~~= pv(v@));
    }
    r
}

/// Normalize `url` into its cache key.
///
/// Fails with [`Error::InternalUrl`] exactly when the url has no `"://"`
/// separator after a nonempty scheme.
pub fn cache_key(url: &str) -> (r: Result<String, Error>)
    ensures
        url_parseable(url@) ==> (r matches Ok(k) && k@ == spec_cache_key(url@)),
        !url_parseable(url@) ==> r == Err::<String, Error>(Error::InternalUrl),
{
    let w = chars_of(url);
    let n = w.len();
    let sep = match find_sep_x(&w) {
        Some(k) => {
            if k < 1 {
                return Err(Error::InternalUrl);
            }
            k
        },
        None => {
            return Err(Error::InternalUrl);
        },
    };
    proof {
        assert(sep + 3 <= n);
    }
    let e = find_path_start_x(&w, sep + 3);
    let head = sub_vec(&w, 0, e);
    let mut key_chars = lower_chars(&head);
    proof {
        assert(w@.subrange(0, e as int) =~= w@.take(e as int));
    }
    match find_char_from_x(&w, e, '?') {
        Some(q) => {
            let mut middle = sub_vec(&w, e, q);
            key_chars.append(&mut middle);
            key_chars.push('?');
            proof {
                assert(q < n);
            }
            let parts = split_from_x(&w, q + 1);
            let sorted = sort_params_x(parts);
            let mut joined = join_amp_x(&sorted);
            key_chars.append(&mut joined);
            proof {
                assert(key_chars@ =~= spec_cache_key(url@));
            }
        },
        None => {
            let mut rest = sub_vec(&w, e, w.len());
            key_chars.append(&mut rest);
            proof {
                assert(key_chars@ =~= spec_cache_key(url@));
            }
        },
    }
    Ok(string_from_chars(&key_chars))
}

/// The lexicographic order, as a relation value.
pub open spec fn lex_leq() -> spec_fn(Seq<char>, Seq<char>) -> bool {
    |x: Seq<char>, y: Seq<char>| lex_le(x, y)
}

/// Characters with one code point are one character.
proof fn lemma_char_code_injective(x: char, y: char)
    requires
        x as u32 == y as u32,
    ensures
        x == y,
{
    vstd::utf8::char_u32_cast(x, x as u32);
    vstd::utf8::char_u32_cast(y, y as u32);
}

/// Lexicographic order is reflexive.
proof fn lemma_lex_le_refl(x: Seq<char>)
    ensures
        lex_le(x, x),
    decreases x.len(),
{
    if x.len() > 0 {
        lemma_lex_le_refl(x.drop_first());
    }
}

/// One of two sequences is lexicographically at most the other.
proof fn lemma_lex_le_connected(x: Seq<char>, y: Seq<char>)
    ensures
        lex_le(x, y) || lex_le(y, x),
    decreases x.len(),
{
    if x.len() > 0 && y.len() > 0 {
        if (x[0] as u32) == (y[0] as u32) {
            lemma_char_code_injective(x[0], y[0]);
            lemma_lex_le_connected(x.drop_first(), y.drop_first());
        }
    }
}

/// Sequences lexicographically at most each other are equal.
proof fn lemma_lex_le_antisym(x: Seq<char>, y: Seq<char>)
    requires
        lex_le(x, y),
        lex_le(y, x),
    ensures
        x == y,
    decreases x.len(),
{
    if x.len() == 0 {
        assert(y.len() == 0);
        assert(x =~= y);
    } else {
        assert(y.len() > 0);
        assert((x[0] as u32) == (y[0] as u32));
        lemma_char_code_injective(x[0], y[0]);
        lemma_lex_le_antisym(x.drop_first(), y.drop_first());
        assert(x.len() == y.len());
        assert forall|i: int| 0 <= i < x.len() implies x[i] == y[i] by {
            if i > 0 {
                assert(x.drop_first()[i - 1] == y.drop_first()[i - 1]);
            }
        }
        assert(x =~= y);
    }
}

/// Lexicographic order is transitive.
proof fn lemma_lex_le_trans(x: Seq<char>, y: Seq<char>, z: Seq<char>)
    requires
        lex_le(x, y),
        lex_le(y, z),
    ensures
        lex_le(x, z),
    decreases x.len(),
{
    if x.len() > 0 && y.len() > 0 && z.len() > 0 {
        if (x[0] as u32) == (y[0] as u32) && (y[0] as u32) == (z[0] as u32) {
            lemma_char_code_injective(x[0], y[0]);
            lemma_lex_le_trans(x.drop_first(), y.drop_first(), z.drop_first());
        }
    }
}

/// Lexicographic order is a total ordering.
proof fn lemma_lex_le_total_ordering()
    ensures
        total_ordering(lex_leq()),
{
    assert forall|x: Seq<char>| #[trigger] lex_leq()(x, x) by {
        lemma_lex_le_refl(x);
    }
    assert forall|x: Seq<char>, y: Seq<char>|
        #[trigger] lex_leq()(x, y) && #[trigger] lex_leq()(y, x) implies x == y by {
        lemma_lex_le_antisym(x, y);
    }
    assert forall|x: Seq<char>, y: Seq<char>, z: Seq<char>|
        #[trigger] lex_leq()(x, y) && #[trigger] lex_leq()(y, z) implies lex_leq()(x, z) by {
        lemma_lex_le_trans(x, y, z);
    }
    assert forall|x: Seq<char>, y: Seq<char>| #[trigger] lex_leq()(x, y) || #[trigger] lex_leq()(
        y,
        x,
    ) by {
        lemma_lex_le_connected(x, y);
    }
}

/// Inserting into a sorted sequence keeps it sorted and adds the element.
proof fn lemma_insert_sorted_props(x: Seq<char>, s: Seq<Seq<char>>)
    requires
        sorted_by(s, lex_leq()),
    ensures
        sorted_by(insert_sorted(x, s), lex_leq()),
        insert_sorted(x, s).to_multiset() == s.to_multiset().insert(x),
    decreases s.len(),
{
    broadcast use vstd::seq_lib::group_to_multiset_ensures;
    broadcast use vstd::multiset::group_multiset_axioms;

    let r = insert_sorted(x, s);
    if s.len() == 0 {
        assert(r =~= s.push(x));
    } else if lex_le(x, s[0]) {
        assert(r =~= s.insert(0, x));
        vstd::seq_lib::to_multiset_insert(s, 0, x);
        assert forall|i: int, j: int| 0 <= i < j < r.len() implies lex_leq()(r[i], r[j]) by {
            if i == 0 {
                assert(r[j] == s[j - 1]);
                if j > 1 {
                    assert(lex_leq()(s[0], s[j - 1]));
                    lemma_lex_le_trans(x, s[0], s[j - 1]);
                }
            } else {
                assert(r[i] == s[i - 1] && r[j] == s[j - 1]);
            }
        }
    } else {
        lemma_lex_le_connected(x, s[0]);
        assert(lex_le(s[0], x));
        assert(sorted_by(s.drop_first(), lex_leq())) by {
            assert forall|i: int, j: int|
                0 <= i < j < s.drop_first().len() implies lex_leq()(
                s.drop_first()[i],
                s.drop_first()[j],
            ) by {
                assert(s.drop_first()[i] == s[i + 1]);
                assert(s.drop_first()[j] == s[j + 1]);
            }
        }
        lemma_insert_sorted_props(x, s.drop_first());
        let inner = insert_sorted(x, s.drop_first());
        assert(r =~= inner.insert(0, s[0]));
        vstd::seq_lib::to_multiset_insert(inner, 0, s[0]);
        assert(s =~= s.drop_first().insert(0, s[0]));
        vstd::seq_lib::to_multiset_insert(s.drop_first(), 0, s[0]);
        assert(r.to_multiset() =~= s.to_multiset().insert(x));
        assert forall|i: int, j: int| 0 <= i < j < r.len() implies lex_leq()(r[i], r[j]) by {
            if i == 0 {
                assert(r[j] == inner[j - 1]);
                assert(inner.to_multiset().contains(inner[j - 1]));
                assert(inner.to_multiset() == s.drop_first().to_multiset().insert(x));
                if inner[j - 1] == x {
                    assert(lex_leq()(s[0], x));
                } else {
                    assert(s.drop_first().to_multiset().contains(inner[j - 1]));
                    assert(s.drop_first().contains(inner[j - 1]));
                    let m = choose|m: int|
                        0 <= m < s.drop_first().len() && s.drop_first()[m] == inner[j - 1];
                    assert(s.drop_first()[m] == s[m + 1]);
                    assert(lex_leq()(s[0], s[m + 1]));
                }
            } else {
                assert(r[i] == inner[i - 1] && r[j] == inner[j - 1]);
            }
        }
    }
}

/// Sorting yields a sorted sequence with the same elements.
proof fn lemma_sort_params_props(s: Seq<Seq<char>>)
    ensures
        sorted_by(sort_params(s), lex_leq()),
        sort_params(s).to_multiset() == s.to_multiset(),
    decreases s.len(),
{
    broadcast use vstd::seq_lib::group_to_multiset_ensures;
    broadcast use vstd::multiset::group_multiset_axioms;

    if s.len() == 0 {
        assert(sort_params(s) =~= Seq::<Seq<char>>::empty());
    } else {
        lemma_sort_params_props(s.drop_last());
        lemma_insert_sorted_props(s.last(), sort_params(s.drop_last()));
        assert(s.drop_last().push(s.last()) =~= s);
        assert(s.to_multiset() == s.drop_last().to_multiset().insert(s.last()));
    }
}

/// A found separator lies at or after `i`, with room for its three characters.
proof fn lemma_find_sep_bounds(s: Seq<char>, i: int)
    requires
        0 <= i,
    ensures
        match find_sep(s, i) {
            Some(k) => i <= k && k + 3 <= s.len(),
            None => true,
        },
    decreases s.len() - i,
{
    if i + 3 <= s.len() && !(s[i] == ':' && s[i + 1] == '/' && s[i + 2] == '/') {
        lemma_find_sep_bounds(s, i + 1);
    }
}

/// The path start lies between `i` and the end.
proof fn lemma_find_path_start_bounds(s: Seq<char>, i: int)
    requires
        0 <= i <= s.len(),
    ensures
        i <= find_path_start(s, i) <= s.len(),
    decreases s.len() - i,
{
    if i < s.len() && !(s[i] == '/' || s[i] == '?') {
        lemma_find_path_start_bounds(s, i + 1);
    }
}

/// **Canonical keys.** Two urls that agree up to their query and whose query
/// parameters are the same up to order share one cache key.
pub proof fn lemma_cache_key_query_order(a: Seq<char>, b: Seq<char>)
    requires
        url_parseable(a),
        url_parseable(b),
        find_path_start(a, find_sep(a, 0).unwrap() + 3) == find_path_start(
            b,
            find_sep(b, 0).unwrap() + 3,
        ),
        find_char_from(a, find_path_start(a, find_sep(a, 0).unwrap() + 3), '?') is Some,
        find_char_from(a, find_path_start(a, find_sep(a, 0).unwrap() + 3), '?') == find_char_from(
            b,
            find_path_start(b, find_sep(b, 0).unwrap() + 3),
            '?',
        ),
        a.take(find_char_from(a, find_path_start(a, find_sep(a, 0).unwrap() + 3), '?').unwrap())
            == b.take(
            find_char_from(a, find_path_start(a, find_sep(a, 0).unwrap() + 3), '?').unwrap(),
        ),
        split_from(
            a,
            find_char_from(a, find_path_start(a, find_sep(a, 0).unwrap() + 3), '?').unwrap() + 1,
        ).to_multiset() == split_from(
            b,
            find_char_from(b, find_path_start(b, find_sep(b, 0).unwrap() + 3), '?').unwrap() + 1,
        ).to_multiset(),
    ensures
        spec_cache_key(a) == spec_cache_key(b),
{
    let sep_a = find_sep(a, 0).unwrap();
    let e = find_path_start(a, sep_a + 3);
    let q = find_char_from(a, e, '?').unwrap();
    lemma_find_sep_bounds(a, 0);
    lemma_find_path_start_bounds(a, sep_a + 3);
    lemma_find_char_from(a, e, '?');
    let sep_b = find_sep(b, 0).unwrap();
    lemma_find_sep_bounds(b, 0);
    lemma_find_path_start_bounds(b, sep_b + 3);
    lemma_find_char_from(b, e, '?');
    let pa = split_from(a, q + 1);
    let pb = split_from(b, q + 1);
    lemma_sort_params_props(pa);
    lemma_sort_params_props(pb);
    lemma_lex_le_total_ordering();
    lemma_sorted_unique(sort_params(pa), sort_params(pb), lex_leq());
    assert(sort_params(pa) == sort_params(pb));
    let ghost ta = a.take(q);
    let ghost tb = b.take(q);
    assert(ta == tb);
    assert(a.take(e) =~= b.take(e)) by {
        assert forall|i: int| 0 <= i < e implies a.take(e)[i] == b.take(e)[i] by {
            assert(ta[i] == a[i]);
            assert(tb[i] == b[i]);
            assert(ta[i] == tb[i]);
        }
    }
    assert(a.subrange(e, q) =~= b.subrange(e, q)) by {
        assert forall|i: int| 0 <= i < q - e implies a.subrange(e, q)[i] == b.subrange(e, q)[i] by {
            assert(ta[e + i] == a[e + i]);
            assert(tb[e + i] == b[e + i]);
            assert(ta[e + i] == tb[e + i]);
        }
    }
}

} // verus!
