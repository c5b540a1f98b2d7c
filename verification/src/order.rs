//! Lexicographic order on strings and a stable sort by string keys.
use vstd::prelude::*;

verus! {

/// `a` comes before `b` or equals it, comparing character by character
/// by code point, as `Ord` for `str` orders them.
pub open spec fn lex_le(a: Seq<char>, b: Seq<char>) -> bool
    decreases a.len(),
{
    if a.len() == 0 {
        true
    } else if b.len() == 0 {
        false
    } else if a[0] != b[0] {
        a[0] < b[0]
    } else {
        lex_le(a.drop_first(), b.drop_first())
    }
}

/// The order is total.
pub proof fn lemma_lex_total(a: Seq<char>, b: Seq<char>)
    ensures
        lex_le(a, b) || lex_le(b, a),
    decreases a.len(),
{
    if a.len() > 0 && b.len() > 0 && a[0] == b[0] {
        lemma_lex_total(a.drop_first(), b.drop_first());
    }
}

/// The order is transitive.
pub proof fn lemma_lex_trans(a: Seq<char>, b: Seq<char>, c: Seq<char>)
    requires
        lex_le(a, b),
        lex_le(b, c),
    ensures
        lex_le(a, c),
    decreases a.len(),
{
    if a.len() > 0 && b.len() > 0 && c.len() > 0 && a[0] == b[0] && b[0] == c[0] {
        lemma_lex_trans(a.drop_first(), b.drop_first(), c.drop_first());
    }
}

/// The order is antisymmetric.
pub proof fn lemma_lex_antisym(a: Seq<char>, b: Seq<char>)
    requires
        lex_le(a, b),
        lex_le(b, a),
    ensures
        a == b,
    decreases a.len(),
{
    if a.len() > 0 && b.len() > 0 {
        lemma_lex_antisym(a.drop_first(), b.drop_first());
        assert(a == seq![a[0]] + a.drop_first());
        assert(b == seq![b[0]] + b.drop_first());
    }
}

proof fn lemma_lex_skip(a: Seq<char>, b: Seq<char>, i: int)
    requires
        0 <= i <= a.len(),
        i <= b.len(),
        a.take(i) == b.take(i),
    ensures
        lex_le(a, b) == lex_le(a.skip(i), b.skip(i)),
    decreases i,
{
    if i > 0 {
        assert(a[0] == a.take(i)[0]);
        assert(b[0] == b.take(i)[0]);
        assert(a.drop_first().take(i - 1) == a.take(i).drop_first());
        assert(b.drop_first().take(i - 1) == b.take(i).drop_first());
        lemma_lex_skip(a.drop_first(), b.drop_first(), i - 1);
        assert(a.drop_first().skip(i - 1) == a.skip(i));
        assert(b.drop_first().skip(i - 1) == b.skip(i));
    } else {
        assert(a.skip(0) == a);
        assert(b.skip(0) == b);
    }
}

/// Whether `a` comes before `b` or equals it.
pub fn lex_le_exec(a: &Vec<char>, b: &Vec<char>) -> (r: bool)
    ensures
        r == lex_le(a@, b@),
{
    let mut i: usize = 0;
    while i < a.len() && i < b.len() && a[i] == b[i]
        invariant
            i <= a.len(),
            i <= b.len(),
            a@.take(i as int) == b@.take(i as int),
        decreases a.len() - i,
    {
        assert(a@.take(i + 1) == a@.take(i as int).push(a@[i as int]));
        assert(b@.take(i + 1) == b@.take(i as int).push(b@[i as int]));
        i = i + 1;
    }
    proof {
        lemma_lex_skip(a@, b@, i as int);
    }
    if i == a.len() {
        true
    } else if i == b.len() {
        false
    } else {
        let x = a[i];
        let y = b[i];
        assert(a@.skip(i as int)[0] == x);
        assert(b@.skip(i as int)[0] == y);
        x < y
    }
}

/// `sorted` with `x` placed after every element whose key comes before
/// or equals the key of `x`, and before the others.
pub open spec fn insert_by_key<T>(sorted: Seq<(Seq<char>, T)>, x: (Seq<char>, T)) -> Seq<
    (Seq<char>, T),
>
    decreases sorted.len(),
{
    if sorted.len() == 0 {
        seq![x]
    } else if lex_le(sorted.last().0, x.0) {
        sorted.push(x)
    } else {
        insert_by_key(sorted.drop_last(), x).push(sorted.last())
    }
}

/// The elements of `s` ordered by key; elements with equal keys keep
/// their order (a stable sort, as `sort_by_key` does).
pub open spec fn sort_by_key<T>(s: Seq<(Seq<char>, T)>) -> Seq<(Seq<char>, T)>
    decreases s.len(),
{
    if s.len() == 0 {
        s
    } else {
        insert_by_key(sort_by_key(s.drop_last()), s.last())
    }
}

/// The pairs with their keys taken by view.
pub open spec fn keyed<T>(v: Seq<(Vec<char>, T)>) -> Seq<(Seq<char>, T)> {
    v.map_values(|p: (Vec<char>, T)| (p.0@, p.1))
}

proof fn lemma_insert_at<T>(sorted: Seq<(Seq<char>, T)>, x: (Seq<char>, T), j: int)
    requires
        0 <= j <= sorted.len(),
        forall|k: int| j <= k < sorted.len() ==> !lex_le(#[trigger] sorted[k].0, x.0),
        j == 0 || lex_le(sorted[j - 1].0, x.0),
    ensures
        insert_by_key(sorted, x) == sorted.take(j).push(x) + sorted.skip(j),
    decreases sorted.len(),
{
    if sorted.len() == 0 {
        assert(sorted.take(j).push(x) + sorted.skip(j) =~= seq![x]);
    } else if j == sorted.len() {
        assert(sorted.take(j) == sorted);
        assert(sorted.skip(j) =~= Seq::<(Seq<char>, T)>::empty());
        assert(sorted.take(j).push(x) + sorted.skip(j) =~= sorted.push(x));
    } else {
        let d = sorted.drop_last();
        assert(!lex_le(sorted[sorted.len() - 1].0, x.0));
        assert forall|k: int| j <= k < d.len() implies !lex_le(#[trigger] d[k].0, x.0) by {
            assert(d[k] == sorted[k]);
        }
        if j > 0 {
            assert(d[j - 1] == sorted[j - 1]);
        }
        lemma_insert_at(d, x, j);
        assert(d.take(j) == sorted.take(j));
        assert(d.skip(j).push(sorted.last()) =~= sorted.skip(j));
        assert((d.take(j).push(x) + d.skip(j)).push(sorted.last()) =~= sorted.take(j).push(x)
            + sorted.skip(j));
    }
}

/// Sorts the pairs by their keys, stably.
pub fn sort_pairs_by_key<T>(v: Vec<(Vec<char>, T)>) -> (r: Vec<(Vec<char>, T)>)
    ensures
        keyed(r@) == sort_by_key(keyed(v@)),
{
    let ghost orig = v@;
    let mut rest = v;
    let mut sorted: Vec<(Vec<char>, T)> = Vec::new();
    let mut i: usize = 0;
    let n = rest.len();
    while rest.len() > 0
        invariant
            n == orig.len(),
            i <= n,
            rest@ == orig.skip(i as int),
            keyed(sorted@) == sort_by_key(keyed(orig.take(i as int))),
        decreases rest.len(),
    {
        let x = rest.remove(0);
        assert(x == orig[i as int]);
        assert(rest@ == orig.skip(i + 1));
        let mut j: usize = sorted.len();
        while j > 0 && !lex_le_exec(&sorted[j - 1].0, &x.0)
            invariant
                j <= sorted.len(),
                forall|k: int| j <= k < sorted.len() ==> !lex_le(#[trigger] sorted@[k].0@, x.0@),
            decreases j,
        {
            j = j - 1;
        }
        let ghost ks = keyed(sorted@);
        let ghost kx = (x.0@, x.1);
        proof {
            assert(ks.len() == sorted@.len());
            assert forall|k: int| j <= k < ks.len() implies !lex_le(#[trigger] ks[k].0, kx.0) by {
                assert(ks[k].0 == sorted@[k].0@);
            }
            if j > 0 {
                assert(ks[j - 1].0 == sorted@[j - 1].0@);
            }
            lemma_insert_at(ks, kx, j as int);
            assert(keyed(orig.take(i + 1)).drop_last() =~= keyed(orig.take(i as int)));
            assert(keyed(orig.take(i + 1)).last() == kx);
        }
        sorted.insert(j, x);
        assert(keyed(sorted@) =~= ks.take(j as int).push(kx) + ks.skip(j as int));
        assert(keyed(sorted@) =~= sort_by_key(keyed(orig.take(i + 1))));
        i = i + 1;
    }
    assert(orig.take(n as int) == orig);
    sorted
}

/// The character sequences in ascending order.
pub open spec fn sort_seqs(s: Seq<Seq<char>>) -> Seq<Seq<char>> {
    sort_by_key(s.map_values(|x: Seq<char>| (x, ()))).map_values(|p: (Seq<char>, ())| p.0)
}

/// The strings in ascending order, as `sort` on strings gives them.
pub fn sort_strings(v: &Vec<String>) -> (r: Vec<String>)
    ensures
        crate::text::strs(r@) == sort_seqs(crate::text::strs(v@)),
{
    let mut pairs: Vec<(Vec<char>, ())> = Vec::new();
    let mut i: usize = 0;
    while i < v.len()
        invariant
            i <= v.len(),
            keyed(pairs@) == crate::text::strs(v@).take(i as int).map_values(
                |x: Seq<char>| (x, ()),
            ),
        decreases v.len() - i,
    {
        let k = crate::text::chars_of(v[i].as_str());
        let ghost old_p = pairs@;
        let ghost target = crate::text::strs(v@).take(i + 1).map_values(|x: Seq<char>| (x, ()));
        assert(keyed(old_p).len() == old_p.len());
        assert(crate::text::strs(v@).len() == v@.len());
        pairs.push((k, ()));
        assert(keyed(pairs@).len() == pairs@.len());
        assert forall|m: int| 0 <= m < i + 1 implies keyed(pairs@)[m] == target[m] by {
            if m < i {
                assert(pairs@[m] == old_p[m]);
                assert(keyed(old_p)[m] == crate::text::strs(v@).take(i as int).map_values(
                    |x: Seq<char>| (x, ()),
                )[m]);
            }
        }
        assert(keyed(pairs@) =~= target);
        i = i + 1;
    }
    assert(crate::text::strs(v@).take(v.len() as int) =~= crate::text::strs(v@));
    let sorted = sort_pairs_by_key(pairs);
    let mut out: Vec<String> = Vec::new();
    let mut j: usize = 0;
    while j < sorted.len()
        invariant
            j <= sorted.len(),
            crate::text::strs(out@) == keyed(sorted@).take(j as int).map_values(
                |p: (Seq<char>, ())| p.0,
            ),
        decreases sorted.len() - j,
    {
        let s = crate::text::string_of(sorted[j].0.as_slice());
        let ghost old_o = out@;
        let ghost target = keyed(sorted@).take(j + 1).map_values(|p: (Seq<char>, ())| p.0);
        assert(crate::text::strs(old_o).len() == old_o.len());
        assert(keyed(sorted@).len() == sorted@.len());
        out.push(s);
        assert(crate::text::strs(out@).len() == out@.len());
        assert forall|m: int| 0 <= m < j + 1 implies crate::text::strs(out@)[m] == target[m] by {
            if m < j {
                assert(out@[m] == old_o[m]);
                assert(crate::text::strs(old_o)[m] == keyed(sorted@).take(j as int).map_values(
                    |p: (Seq<char>, ())| p.0,
                )[m]);
            }
        }
        assert(crate::text::strs(out@) =~= target);
        j = j + 1;
    }
    assert(keyed(sorted@).take(sorted.len() as int) =~= keyed(sorted@));
    out
}


/// The pair with its value mapped by `f`.
pub open spec fn map_value<T, U>(p: (Seq<char>, T), f: spec_fn(T) -> U) -> (Seq<char>, U) {
    (p.0, f(p.1))
}

proof fn lemma_insert_map<T, U>(t: Seq<(Seq<char>, T)>, x: (Seq<char>, T), f: spec_fn(T) -> U)
    ensures
        insert_by_key(t.map_values(|p: (Seq<char>, T)| map_value(p, f)), map_value(x, f))
            == insert_by_key(t, x).map_values(|p: (Seq<char>, T)| map_value(p, f)),
    decreases t.len(),
{
    let g = |p: (Seq<char>, T)| map_value(p, f);
    let tm = t.map_values(g);
    if t.len() == 0 {
        assert(insert_by_key(t, x).map_values(g) =~= seq![map_value(x, f)]);
    } else {
        assert(tm.last() == g(t.last()));
        assert(tm.drop_last() =~= t.drop_last().map_values(g));
        if lex_le(t.last().0, x.0) {
            assert(t.push(x).map_values(g) =~= tm.push(map_value(x, f)));
        } else {
            lemma_insert_map(t.drop_last(), x, f);
            assert(insert_by_key(t.drop_last(), x).push(t.last()).map_values(g) =~= insert_by_key(
                t.drop_last(),
                x,
            ).map_values(g).push(g(t.last())));
        }
    }
}

/// Sorting by key and then mapping the values gives what mapping the
/// values and then sorting gives: the keys decide the order.
pub proof fn lemma_sort_map<T, U>(s: Seq<(Seq<char>, T)>, f: spec_fn(T) -> U)
    ensures
        sort_by_key(s.map_values(|p: (Seq<char>, T)| map_value(p, f))) == sort_by_key(s).map_values(
            |p: (Seq<char>, T)| map_value(p, f),
        ),
    decreases s.len(),
{
    let g = |p: (Seq<char>, T)| map_value(p, f);
    let sm = s.map_values(g);
    if s.len() == 0 {
        assert(sm =~= s.map_values(g));
        assert(sort_by_key(s).map_values(g) =~= sm);
    } else {
        assert(sm.drop_last() =~= s.drop_last().map_values(g));
        assert(sm.last() == g(s.last()));
        lemma_sort_map(s.drop_last(), f);
        lemma_insert_map(sort_by_key(s.drop_last()), s.last(), f);
    }
}


/// Whether the keys of `s` ascend.
pub open spec fn keys_ascend<T>(s: Seq<(Seq<char>, T)>) -> bool {
    forall|i: int, j: int| 0 <= i < j < s.len() ==> lex_le(#[trigger] s[i].0, #[trigger] s[j].0)
}

proof fn lemma_insert_contents<T>(t: Seq<(Seq<char>, T)>, x: (Seq<char>, T))
    ensures
        insert_by_key(t, x).to_multiset() == t.to_multiset().insert(x),
        insert_by_key(t, x).len() == t.len() + 1,
        forall|y: (Seq<char>, T)| insert_by_key(t, x).contains(y) <==> (t.contains(y) || y == x),
    decreases t.len(),
{
    broadcast use vstd::seq_lib::group_to_multiset_ensures;

    if t.len() == 0 {
        assert(insert_by_key(t, x) =~= t.push(x));
    } else if lex_le(t.last().0, x.0) {
    } else {
        let d = t.drop_last();
        lemma_insert_contents(d, x);
        assert(t == d.push(t.last()));
        assert(insert_by_key(t, x).to_multiset() =~= t.to_multiset().insert(x));
    }
    assert forall|y: (Seq<char>, T)| insert_by_key(t, x).contains(y) <==> (t.contains(y) || y == x) by {
        assert(insert_by_key(t, x).to_multiset().count(y) == t.to_multiset().insert(x).count(y));
    }
}

proof fn lemma_insert_sorted<T>(t: Seq<(Seq<char>, T)>, x: (Seq<char>, T))
    requires
        keys_ascend(t),
    ensures
        keys_ascend(insert_by_key(t, x)),
    decreases t.len(),
{
    if t.len() == 0 {
    } else if lex_le(t.last().0, x.0) {
        let r = t.push(x);
        assert forall|i: int, j: int| 0 <= i < j < r.len() implies lex_le(
            #[trigger] r[i].0,
            #[trigger] r[j].0,
        ) by {
            if j == t.len() {
                if i < t.len() - 1 {
                    lemma_lex_trans(t[i].0, t.last().0, x.0);
                }
            }
        }
    } else {
        let d = t.drop_last();
        lemma_insert_sorted(d, x);
        lemma_insert_contents(d, x);
        lemma_lex_total(t.last().0, x.0);
        let m = insert_by_key(d, x);
        let r = m.push(t.last());
        assert forall|i: int, j: int| 0 <= i < j < r.len() implies lex_le(
            #[trigger] r[i].0,
            #[trigger] r[j].0,
        ) by {
            if j == m.len() {
                assert(m.contains(m[i]));
                if m[i] == x {
                } else {
                    assert(d.contains(m[i]));
                    let k = choose|k: int| 0 <= k < d.len() && d[k] == m[i];
                    assert(t[k] == d[k]);
                    assert(t[t.len() - 1] == t.last());
                }
            }
        }
    }
}

/// A stable sort gives ascending keys and the same elements.
pub proof fn lemma_sort_by_key<T>(s: Seq<(Seq<char>, T)>)
    ensures
        keys_ascend(sort_by_key(s)),
        sort_by_key(s).to_multiset() == s.to_multiset(),
        sort_by_key(s).len() == s.len(),
    decreases s.len(),
{
    broadcast use vstd::seq_lib::group_to_multiset_ensures;

    if s.len() > 0 {
        lemma_sort_by_key(s.drop_last());
        lemma_insert_sorted(sort_by_key(s.drop_last()), s.last());
        lemma_insert_contents(sort_by_key(s.drop_last()), s.last());
        assert(s == s.drop_last().push(s.last()));
    }
}

/// Sorting pairs whose keys already ascend leaves them as they are.
pub proof fn lemma_sort_ascending<T>(s: Seq<(Seq<char>, T)>)
    requires
        keys_ascend(s),
    ensures
        sort_by_key(s) == s,
    decreases s.len(),
{
    if s.len() > 0 {
        let d = s.drop_last();
        assert(keys_ascend(d)) by {
            assert forall|i: int, j: int| 0 <= i < j < d.len() implies lex_le(
                #[trigger] d[i].0,
                #[trigger] d[j].0,
            ) by {
                assert(d[i] == s[i] && d[j] == s[j]);
            }
        }
        lemma_sort_ascending(d);
        if d.len() > 0 {
            assert(d.last() == s[s.len() - 2]);
            assert(lex_le(s[s.len() - 2].0, s[s.len() - 1].0));
        }
        assert(d.push(s.last()) =~= s);
    }
}

/// `sorted` with `x` placed after every element scored at least as high as
/// `x`, and before the others.
pub open spec fn insert_by_score<T>(sorted: Seq<(i64, T)>, x: (i64, T)) -> Seq<(i64, T)>
    decreases sorted.len(),
{
    if sorted.len() == 0 {
        seq![x]
    } else if sorted.last().0 >= x.0 {
        sorted.push(x)
    } else {
        insert_by_score(sorted.drop_last(), x).push(sorted.last())
    }
}

/// The pairs from the highest score to the lowest; pairs with equal scores
/// keep their order (a stable sort by descending score).
pub open spec fn sort_by_score<T>(s: Seq<(i64, T)>) -> Seq<(i64, T)>
    decreases s.len(),
{
    if s.len() == 0 {
        s
    } else {
        insert_by_score(sort_by_score(s.drop_last()), s.last())
    }
}

proof fn lemma_insert_by_score_at<T>(sorted: Seq<(i64, T)>, x: (i64, T), j: int)
    requires
        0 <= j <= sorted.len(),
        forall|k: int| j <= k < sorted.len() ==> #[trigger] sorted[k].0 < x.0,
        j == 0 || sorted[j - 1].0 >= x.0,
    ensures
        insert_by_score(sorted, x) == sorted.take(j).push(x) + sorted.skip(j),
    decreases sorted.len(),
{
    if sorted.len() == 0 {
        assert(sorted.take(j).push(x) + sorted.skip(j) =~= seq![x]);
    } else if j == sorted.len() {
        assert(sorted.take(j) == sorted);
        assert(sorted.skip(j) =~= Seq::<(i64, T)>::empty());
        assert(sorted.take(j).push(x) + sorted.skip(j) =~= sorted.push(x));
    } else {
        let d = sorted.drop_last();
        assert(sorted[sorted.len() - 1].0 < x.0);
        assert forall|k: int| j <= k < d.len() implies #[trigger] d[k].0 < x.0 by {
            assert(d[k] == sorted[k]);
        }
        if j > 0 {
            assert(d[j - 1] == sorted[j - 1]);
        }
        lemma_insert_by_score_at(d, x, j);
        assert(d.take(j) == sorted.take(j));
        assert(d.skip(j).push(sorted.last()) =~= sorted.skip(j));
        assert((d.take(j).push(x) + d.skip(j)).push(sorted.last()) =~= sorted.take(j).push(x)
            + sorted.skip(j));
    }
}

/// Sorts the pairs from the highest score to the lowest, stably.
pub fn sort_pairs_by_score<T>(v: Vec<(i64, T)>) -> (r: Vec<(i64, T)>)
    ensures
        r@ == sort_by_score(v@),
{
    let ghost orig = v@;
    let mut rest = v;
    let mut sorted: Vec<(i64, T)> = Vec::new();
    let mut i: usize = 0;
    let n = rest.len();
    while rest.len() > 0
        invariant
            n == orig.len(),
            i <= n,
            rest@ == orig.skip(i as int),
            sorted@ == sort_by_score(orig.take(i as int)),
        decreases rest.len(),
    {
        let x = rest.remove(0);
        assert(x == orig[i as int]);
        assert(rest@ == orig.skip(i + 1));
        let mut j: usize = sorted.len();
        while j > 0 && sorted[j - 1].0 < x.0
            invariant
                j <= sorted.len(),
                forall|k: int| j <= k < sorted.len() ==> #[trigger] sorted@[k].0 < x.0,
            decreases j,
        {
            j = j - 1;
        }
        proof {
            lemma_insert_by_score_at(sorted@, x, j as int);
            assert(orig.take(i + 1).drop_last() =~= orig.take(i as int));
            assert(orig.take(i + 1).last() == x);
        }
        sorted.insert(j, x);
        assert(sorted@ =~= sort_by_score(orig.take(i + 1)));
        i = i + 1;
    }
    assert(orig.take(n as int) == orig);
    sorted
}

/// A pair with its value mapped by `f`.
pub open spec fn map_scored<T, U>(p: (i64, T), f: spec_fn(T) -> U) -> (i64, U) {
    (p.0, f(p.1))
}

proof fn lemma_insert_score_map<T, U>(t: Seq<(i64, T)>, x: (i64, T), f: spec_fn(T) -> U)
    ensures
        insert_by_score(t.map_values(|p: (i64, T)| map_scored(p, f)), map_scored(x, f))
            == insert_by_score(t, x).map_values(|p: (i64, T)| map_scored(p, f)),
    decreases t.len(),
{
    let g = |p: (i64, T)| map_scored(p, f);
    let tm = t.map_values(g);
    if t.len() == 0 {
        assert(insert_by_score(t, x).map_values(g) =~= seq![map_scored(x, f)]);
    } else {
        assert(tm.last() == g(t.last()));
        assert(tm.drop_last() =~= t.drop_last().map_values(g));
        if t.last().0 >= x.0 {
            assert(t.push(x).map_values(g) =~= tm.push(map_scored(x, f)));
        } else {
            lemma_insert_score_map(t.drop_last(), x, f);
            assert(insert_by_score(t.drop_last(), x).push(t.last()).map_values(g)
                =~= insert_by_score(t.drop_last(), x).map_values(g).push(g(t.last())));
        }
    }
}

/// Whether the scores of `s` descend.
pub open spec fn scores_descend<T>(s: Seq<(i64, T)>) -> bool {
    forall|i: int, j: int| 0 <= i < j < s.len() ==> #[trigger] s[i].0 >= #[trigger] s[j].0
}

proof fn lemma_insert_score_contents<T>(t: Seq<(i64, T)>, x: (i64, T))
    ensures
        insert_by_score(t, x).to_multiset() == t.to_multiset().insert(x),
        insert_by_score(t, x).len() == t.len() + 1,
        forall|y: (i64, T)| insert_by_score(t, x).contains(y) <==> (t.contains(y) || y == x),
    decreases t.len(),
{
    broadcast use vstd::seq_lib::group_to_multiset_ensures;

    if t.len() == 0 {
        assert(insert_by_score(t, x) =~= t.push(x));
    } else if t.last().0 >= x.0 {
    } else {
        let d = t.drop_last();
        lemma_insert_score_contents(d, x);
        assert(t == d.push(t.last()));
        assert(insert_by_score(t, x).to_multiset() =~= t.to_multiset().insert(x));
    }
    assert forall|y: (i64, T)| insert_by_score(t, x).contains(y) <==> (t.contains(y) || y == x) by {
        assert(insert_by_score(t, x).to_multiset().count(y) == t.to_multiset().insert(x).count(y));
    }
}

proof fn lemma_insert_score_sorted<T>(t: Seq<(i64, T)>, x: (i64, T))
    requires
        scores_descend(t),
    ensures
        scores_descend(insert_by_score(t, x)),
    decreases t.len(),
{
    if t.len() == 0 {
    } else if t.last().0 >= x.0 {
        let r = t.push(x);
        assert forall|i: int, j: int| 0 <= i < j < r.len() implies #[trigger] r[i].0 >= #[trigger] r[j].0 by {
            if j == t.len() && i < t.len() - 1 {
                assert(t[i].0 >= t[t.len() - 1].0);
            }
        }
    } else {
        let d = t.drop_last();
        assert forall|i: int, j: int| 0 <= i < j < d.len() implies #[trigger] d[i].0 >= #[trigger] d[j].0 by {
            assert(d[i] == t[i] && d[j] == t[j]);
        }
        lemma_insert_score_sorted(d, x);
        lemma_insert_score_contents(d, x);
        let m = insert_by_score(d, x);
        let r = m.push(t.last());
        assert forall|i: int, j: int| 0 <= i < j < r.len() implies #[trigger] r[i].0 >= #[trigger] r[j].0 by {
            if j == m.len() {
                assert(m.contains(m[i]));
                if m[i] != x {
                    assert(d.contains(m[i]));
                    let k = choose|k: int| 0 <= k < d.len() && d[k] == m[i];
                    assert(t[k] == d[k]);
                    assert(t[k].0 >= t[t.len() - 1].0);
                }
            } else {
                assert(r[i] == m[i] && r[j] == m[j]);
            }
        }
    }
}

/// Sorting by score keeps the pairs and puts the scores in descending
/// order.
pub proof fn lemma_sort_by_score<T>(s: Seq<(i64, T)>)
    ensures
        scores_descend(sort_by_score(s)),
        sort_by_score(s).to_multiset() == s.to_multiset(),
        sort_by_score(s).len() == s.len(),
        forall|y: (i64, T)| sort_by_score(s).contains(y) <==> s.contains(y),
    decreases s.len(),
{
    broadcast use vstd::seq_lib::group_to_multiset_ensures;

    if s.len() > 0 {
        lemma_sort_by_score(s.drop_last());
        lemma_insert_score_sorted(sort_by_score(s.drop_last()), s.last());
        lemma_insert_score_contents(sort_by_score(s.drop_last()), s.last());
        assert(s == s.drop_last().push(s.last()));
    }
    assert forall|y: (i64, T)| sort_by_score(s).contains(y) <==> s.contains(y) by {
        assert(sort_by_score(s).to_multiset().count(y) == s.to_multiset().count(y));
    }
}

/// Sorting by score and then mapping the values gives what mapping the
/// values and then sorting gives.
pub proof fn lemma_score_sort_map<T, U>(s: Seq<(i64, T)>, f: spec_fn(T) -> U)
    ensures
        sort_by_score(s.map_values(|p: (i64, T)| map_scored(p, f))) == sort_by_score(s).map_values(
            |p: (i64, T)| map_scored(p, f),
        ),
    decreases s.len(),
{
    let g = |p: (i64, T)| map_scored(p, f);
    let sm = s.map_values(g);
    if s.len() == 0 {
        assert(sort_by_score(s).map_values(g) =~= sm);
    } else {
        assert(sm.drop_last() =~= s.drop_last().map_values(g));
        assert(sm.last() == g(s.last()));
        lemma_score_sort_map(s.drop_last(), f);
        lemma_insert_score_map(sort_by_score(s.drop_last()), s.last(), f);
    }
}

} // verus!
