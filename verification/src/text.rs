//! Character-level string operations with their specifications.
//!
//! Strings are reasoned about through their view, a `Seq<char>`.
use vstd::prelude::*;

verus! {

/// Appends one character to a `String`.
///
/// Calls `String::push`, whose documentation says it appends the given
/// character to the end of the string.
#[verifier::external_body]
pub(crate) fn push_char(s: &mut String, c: char)
    ensures
        final(s)@ == old(s)@.push(c),
{
    s.push(c);
}

/// Removes the last character of a `String`.
///
/// Calls `String::pop`, whose documentation says it removes the last
/// character and returns it, or returns `None` when the string is empty.
#[verifier::external_body]
pub(crate) fn pop_char(s: &mut String) -> (r: Option<char>)
    ensures
        old(s)@.len() == 0 ==> r is None && final(s)@ == old(s)@,
        old(s)@.len() > 0 ==> r == Some(old(s)@.last()) && final(s)@ == old(s)@.drop_last(),
{
    s.pop()
}

/// How many bytes `c` takes in UTF-8.
pub open spec fn utf8_width(c: char) -> int {
    if c <= '\u{7f}' {
        1
    } else if c <= '\u{7ff}' {
        2
    } else if c <= '\u{ffff}' {
        3
    } else {
        4
    }
}

/// How many bytes `s` takes in UTF-8.
pub open spec fn utf8_len(s: Seq<char>) -> int
    decreases s.len(),
{
    if s.len() == 0 {
        0
    } else {
        utf8_len(s.drop_last()) + utf8_width(s.last())
    }
}

/// The UTF-8 length of a prefix grows by the width of the next character.
pub proof fn lemma_utf8_len_step(s: Seq<char>, i: int)
    requires
        0 <= i < s.len(),
    ensures
        utf8_len(s.take(i + 1)) == utf8_len(s.take(i)) + utf8_width(s[i]),
{
    assert(s.take(i + 1).drop_last() =~= s.take(i));
}

/// Whether the byte position `b` of `s` falls between two characters: it
/// is the UTF-8 length of some prefix of `s`.
pub open spec fn is_char_boundary(s: Seq<char>, b: int) -> bool {
    exists|k: int| 0 <= k <= s.len() && #[trigger] utf8_len(s.take(k)) == b
}

/// The number of characters before the byte position `b` of `s`.
pub open spec fn char_index(s: Seq<char>, b: int) -> int {
    choose|k: int| 0 <= k <= s.len() && #[trigger] utf8_len(s.take(k)) == b
}

/// Inserts a character at a byte position.
///
/// Calls `String::insert`, whose documentation says it inserts the
/// character at the byte position and panics when the position is past
/// the end or not on a character boundary.
#[verifier::external_body]
pub(crate) fn insert_char(s: &mut String, idx: usize, c: char)
    requires
        is_char_boundary(old(s)@, idx as int),
    ensures
        final(s)@ == old(s)@.insert(char_index(old(s)@, idx as int), c),
{
    s.insert(idx, c);
}

/// Removes the character at a byte position and gives it back.
///
/// Calls `String::remove`, whose documentation says it removes the
/// character that starts at the byte position and panics when the position
/// is not before the end or not on a character boundary.
#[verifier::external_body]
pub(crate) fn remove_char_at(s: &mut String, idx: usize) -> (r: char)
    requires
        is_char_boundary(old(s)@, idx as int),
        (idx as int) < utf8_len(old(s)@),
    ensures
        r == old(s)@[char_index(old(s)@, idx as int)],
        final(s)@ == old(s)@.remove(char_index(old(s)@, idx as int)),
{
    s.remove(idx)
}

/// The UTF-8 length grows with the prefix.
pub proof fn lemma_utf8_len_grows(s: Seq<char>, i: int, k: int)
    requires
        0 <= i < k <= s.len(),
    ensures
        utf8_len(s.take(i)) < utf8_len(s.take(k)),
    decreases k - i,
{
    lemma_utf8_len_step(s, k - 1);
    if i < k - 1 {
        lemma_utf8_len_grows(s, i, k - 1);
    }
}

/// Whether `s` takes more than `n` bytes in UTF-8.
pub fn longer_than(s: &str, n: usize) -> (r: bool)
    ensures
        r == (utf8_len(s@) > n),
{
    let v = chars_of(s);
    let mut i: usize = 0;
    let mut acc: u128 = 0;
    while i < v.len() && acc <= n as u128
        invariant
            v@ == s@,
            i <= v.len(),
            acc == utf8_len(v@.take(i as int)),
            acc <= n + 4,
        decreases v.len() - i,
    {
        proof {
            lemma_utf8_len_step(v@, i as int);
        }
        let c = v[i];
        let w: u128 = if c <= '\u{7f}' {
            1
        } else if c <= '\u{7ff}' {
            2
        } else if c <= '\u{ffff}' {
            3
        } else {
            4
        };
        acc = acc + w;
        i = i + 1;
    }
    proof {
        if i < v.len() {
            lemma_utf8_len_grows(v@, i as int, v@.len() as int);
        }
        assert(v@.take(v@.len() as int) =~= v@);
    }
    acc > n as u128
}

/// The first `n` bytes of `s`, which end on a character boundary.
pub fn byte_prefix(s: &str, n: usize) -> (r: String)
    requires
        is_char_boundary(s@, n as int),
    ensures
        r@ == s@.take(char_index(s@, n as int)),
{
    let v = chars_of(s);
    let ghost k = char_index(s@, n as int);
    proof {
        assert forall|j: int| 0 <= j <= s@.len() && j != k implies #[trigger] utf8_len(s@.take(j)) != n by {
            if j < k {
                lemma_utf8_len_grows(s@, j, k);
            } else {
                lemma_utf8_len_grows(s@, k, j);
            }
        }
    }
    let mut out: Vec<char> = Vec::new();
    let mut i: usize = 0;
    let mut acc: u128 = 0;
    assert(v@.take(0) =~= Seq::<char>::empty());
    assert(utf8_len(s@.take(0)) == 0);
    assert(out@ =~= v@.take(0));
    while acc < n as u128
        invariant
            v@ == s@,
            0 <= k <= v@.len(),
            utf8_len(s@.take(k)) == n,
            i <= k,
            acc == utf8_len(v@.take(i as int)),
            out@ == v@.take(i as int),
            acc == n ==> i == k,
            forall|j: int| 0 <= j <= s@.len() && j != k ==> #[trigger] utf8_len(s@.take(j)) != n,
        decreases k - i,
    {
        proof {
            if i == k {
                assert(false);
            }
            lemma_utf8_len_step(v@, i as int);
            if i + 1 < k {
                lemma_utf8_len_grows(s@, i + 1, k);
            }
        }
        assert(i < k);
        assert(i < v.len());
        let c = v[i];
        let w: u128 = if c <= '\u{7f}' {
            1
        } else if c <= '\u{7ff}' {
            2
        } else if c <= '\u{ffff}' {
            3
        } else {
            4
        };
        out.push(c);
        acc = acc + w;
        i = i + 1;
        assert(out@ =~= v@.take(i as int));
    }
    proof {
        if i < k {
            lemma_utf8_len_grows(s@, i as int, k);
        }
    }
    string_of(out.as_slice())
}

/// The characters of a string slice, in order.
pub fn chars_of(s: &str) -> (r: Vec<char>)
    ensures
        r@ == s@,
{
    let mut v: Vec<char> = Vec::new();
    for c in it: s.chars()
        invariant
            v@ == it.seq().take(it.index() as int),
    {
        v.push(c);
    }
    v
}

/// The string made of the given characters.
pub fn string_of(v: &[char]) -> (r: String)
    ensures
        r@ == v@,
{
    let mut s = String::new();
    let mut i: usize = 0;
    while i < v.len()
        invariant
            i <= v.len(),
            s@ == v@.take(i as int),
        decreases v.len() - i,
    {
        push_char(&mut s, v[i]);
        assert(v@.take(i + 1) == v@.take(i as int).push(v@[i as int]));
        i = i + 1;
    }
    assert(v@.take(v.len() as int) == v@);
    s
}

/// A copy of a string slice as an owned `String`.
pub fn own(s: &str) -> (r: String)
    ensures
        r@ == s@,
{
    s.to_owned()
}

/// The concatenation of two strings.
pub fn concat(a: &str, b: &str) -> (r: String)
    ensures
        r@ == a@ + b@,
{
    let mut r = a.to_owned();
    r.append(b);
    r
}

/// Whether two strings hold the same characters.
pub fn str_eq(a: &str, b: &str) -> (r: bool)
    ensures
        r == (a@ == b@),
{
    let x = chars_of(a);
    let y = chars_of(b);
    if x.len() != y.len() {
        return false;
    }
    let mut i: usize = 0;
    while i < x.len()
        invariant
            x@ == a@,
            y@ == b@,
            x.len() == y.len(),
            i <= x.len(),
            forall|k: int| 0 <= k < i ==> x@[k] == y@[k],
        decreases x.len() - i,
    {
        if x[i] != y[i] {
            return false;
        }
        i = i + 1;
    }
    assert(x@ =~= y@);
    true
}

/// The whitespace characters of Unicode, as `char::is_whitespace` documents them
/// (the `White_Space` property).
pub open spec fn is_ws(c: char) -> bool {
    ||| ('\u{9}' <= c && c <= '\u{d}')
    ||| c == ' '
    ||| c == '\u{85}'
    ||| c == '\u{a0}'
    ||| c == '\u{1680}'
    ||| ('\u{2000}' <= c && c <= '\u{200a}')
    ||| c == '\u{2028}'
    ||| c == '\u{2029}'
    ||| c == '\u{202f}'
    ||| c == '\u{205f}'
    ||| c == '\u{3000}'
}

/// Whether `c` is a Unicode whitespace character.
pub fn is_whitespace(c: char) -> (r: bool)
    ensures
        r == is_ws(c),
{
    ('\u{9}' <= c && c <= '\u{d}') || c == ' ' || c == '\u{85}' || c == '\u{a0}' || c == '\u{1680}'
        || ('\u{2000}' <= c && c <= '\u{200a}') || c == '\u{2028}' || c == '\u{2029}' || c
        == '\u{202f}' || c == '\u{205f}' || c == '\u{3000}'
}

/// `s` without its leading whitespace.
pub open spec fn trim_start(s: Seq<char>) -> Seq<char>
    decreases s.len(),
{
    if s.len() > 0 && is_ws(s[0]) {
        trim_start(s.drop_first())
    } else {
        s
    }
}

/// `s` without its trailing whitespace.
pub open spec fn trim_end(s: Seq<char>) -> Seq<char>
    decreases s.len(),
{
    if s.len() > 0 && is_ws(s.last()) {
        trim_end(s.drop_last())
    } else {
        s
    }
}

/// `s` without leading and trailing whitespace, as `str::trim` gives it.
pub open spec fn trim(s: Seq<char>) -> Seq<char> {
    trim_end(trim_start(s))
}

proof fn lemma_trim_start_skip(s: Seq<char>, i: int)
    requires
        0 <= i <= s.len(),
        forall|k: int| 0 <= k < i ==> is_ws(s[k]),
    ensures
        trim_start(s) == trim_start(s.skip(i)),
    decreases i,
{
    if i > 0 {
        assert(s.skip(1) == s.drop_first());
        lemma_trim_start_skip(s.drop_first(), i - 1);
        assert(s.drop_first().skip(i - 1) == s.skip(i));
    } else {
        assert(s.skip(0) == s);
    }
}

proof fn lemma_trim_end_take(s: Seq<char>, j: int)
    requires
        0 <= j <= s.len(),
        forall|k: int| j <= k < s.len() ==> is_ws(s[k]),
    ensures
        trim_end(s) == trim_end(s.take(j)),
    decreases s.len() - j,
{
    if j < s.len() {
        assert(s.take(s.len() - 1) == s.drop_last());
        lemma_trim_end_take(s.drop_last(), j);
        assert(s.drop_last().take(j) == s.take(j));
    } else {
        assert(s.take(j) == s);
    }
}

/// `s` without leading and trailing whitespace.
pub fn trim_str(s: &str) -> (r: String)
    ensures
        r@ == trim(s@),
{
    let v = chars_of(s);
    let mut i: usize = 0;
    while i < v.len() && is_whitespace(v[i])
        invariant
            v@ == s@,
            i <= v.len(),
            forall|k: int| 0 <= k < i ==> is_ws(v@[k]),
        decreases v.len() - i,
    {
        i = i + 1;
    }
    proof {
        lemma_trim_start_skip(v@, i as int);
        let t = v@.skip(i as int);
        if t.len() > 0 {
            assert(t[0] == v@[i as int]);
        }
    }
    let mut j: usize = v.len();
    while j > i && is_whitespace(v[j - 1])
        invariant
            v@ == s@,
            i <= j <= v.len(),
            forall|k: int| j <= k < v.len() ==> is_ws(v@[k]),
        decreases j,
    {
        j = j - 1;
    }
    let ghost t = v@.skip(i as int);
    proof {
        assert(trim_start(v@) == t);
        lemma_trim_end_take(t, j - i);
        let u = t.take(j - i);
        assert(u == v@.subrange(i as int, j as int));
        if u.len() > 0 {
            assert(u.last() == v@[j - 1]);
        }
    }
    let mut out: Vec<char> = Vec::new();
    let mut k: usize = i;
    while k < j
        invariant
            v@ == s@,
            i <= k <= j <= v.len(),
            out@ == v@.subrange(i as int, k as int),
        decreases j - k,
    {
        out.push(v[k]);
        assert(v@.subrange(i as int, k + 1) == v@.subrange(i as int, k as int).push(v@[k as int]));
        k = k + 1;
    }
    string_of(&out)
}

/// Whether `s` has `c` among its characters.
pub fn contains_char(s: &str, c: char) -> (r: bool)
    ensures
        r == s@.contains(c),
{
    let v = chars_of(s);
    let mut i: usize = 0;
    while i < v.len()
        invariant
            v@ == s@,
            i <= v.len(),
            forall|k: int| 0 <= k < i ==> v@[k] != c,
        decreases v.len() - i,
    {
        if v[i] == c {
            assert(s@[i as int] == c);
            return true;
        }
        i = i + 1;
    }
    false
}

/// Whether `pat` stands in `s` at position `i`.
pub open spec fn occurs_at(s: Seq<char>, pat: Seq<char>, i: int) -> bool {
    0 <= i && i + pat.len() <= s.len() && s.subrange(i, i + pat.len()) == pat
}

/// Whether `pat` stands somewhere in `s`.
pub open spec fn contains_seq(s: Seq<char>, pat: Seq<char>) -> bool {
    exists|i: int| occurs_at(s, pat, i)
}

/// Whether `s` begins with `p`.
pub open spec fn starts_with(s: Seq<char>, p: Seq<char>) -> bool {
    p.len() <= s.len() && s.take(p.len() as int) == p
}

fn occurs_at_exec(v: &Vec<char>, p: &Vec<char>, i: usize) -> (r: bool)
    requires
        i <= v.len(),
    ensures
        r == occurs_at(v@, p@, i as int),
{
    if p.len() > v.len() - i {
        return false;
    }
    let mut k: usize = 0;
    while k < p.len()
        invariant
            i + p.len() <= v.len(),
            k <= p.len(),
            forall|m: int| 0 <= m < k ==> v@[i + m] == p@[m],
        decreases p.len() - k,
    {
        if v[i + k] != p[k] {
            assert(v@.subrange(i as int, i + p.len())[k as int] != p@[k as int]);
            return false;
        }
        k = k + 1;
    }
    assert(v@.subrange(i as int, i + p.len()) =~= p@);
    true
}

/// The first position at or after `start` where `pat` occurs in `s`, if any.
pub open spec fn find_from(s: Seq<char>, pat: Seq<char>, start: int) -> Option<int>
    decreases s.len() - start,
{
    if start < 0 || start > s.len() {
        None
    } else if occurs_at(s, pat, start) {
        Some(start)
    } else if start == s.len() {
        None
    } else {
        find_from(s, pat, start + 1)
    }
}

/// The first position where `pat` occurs in `s`, if any.
pub open spec fn find_seq(s: Seq<char>, pat: Seq<char>) -> Option<int> {
    find_from(s, pat, 0)
}

proof fn lemma_find_from_none(s: Seq<char>, pat: Seq<char>, start: int)
    requires
        0 <= start <= s.len(),
        find_from(s, pat, start) is None,
    ensures
        forall|i: int| start <= i <= s.len() ==> !occurs_at(s, pat, i),
    decreases s.len() - start,
{
    if start < s.len() && !occurs_at(s, pat, start) {
        lemma_find_from_none(s, pat, start + 1);
    }
}

proof fn lemma_find_from_some(s: Seq<char>, pat: Seq<char>, start: int)
    requires
        0 <= start <= s.len(),
        find_from(s, pat, start) is Some,
    ensures
        occurs_at(s, pat, find_from(s, pat, start).unwrap()),
        start <= find_from(s, pat, start).unwrap(),
        forall|i: int| start <= i < find_from(s, pat, start).unwrap() ==> !occurs_at(s, pat, i),
    decreases s.len() - start,
{
    if !occurs_at(s, pat, start) && start < s.len() {
        lemma_find_from_some(s, pat, start + 1);
    }
}

/// `find_seq` is the least position of an occurrence.
pub proof fn lemma_find_seq(s: Seq<char>, pat: Seq<char>)
    ensures
        find_seq(s, pat) is None <==> !contains_seq(s, pat),
        find_seq(s, pat) is Some ==> occurs_at(s, pat, find_seq(s, pat).unwrap()),
        find_seq(s, pat) is Some ==> forall|i: int|
            0 <= i < find_seq(s, pat).unwrap() ==> !occurs_at(s, pat, i),
{
    if find_seq(s, pat) is None {
        lemma_find_from_none(s, pat, 0);
        assert forall|i: int| !occurs_at(s, pat, i) by {
            if occurs_at(s, pat, i) {
                assert(0 <= i <= s.len());
            }
        }
    } else {
        lemma_find_from_some(s, pat, 0);
    }
}

/// The position of the first occurrence of `pat` in `v`.
pub fn find_first(v: &Vec<char>, pat: &Vec<char>) -> (r: Option<usize>)
    ensures
        r matches Some(i) ==> find_seq(v@, pat@) == Some(i as int),
        r is None ==> find_seq(v@, pat@) is None,
{
    let mut i: usize = 0;
    while i < v.len()
        invariant
            i <= v.len(),
            forall|k: int| 0 <= k < i ==> !occurs_at(v@, pat@, k),
        decreases v.len() - i,
    {
        if occurs_at_exec(v, pat, i) {
            proof {
                lemma_find_prefix_none(v@, pat@, i as int);
            }
            return Some(i);
        }
        i = i + 1;
    }
    proof {
        lemma_find_prefix_none(v@, pat@, v@.len() as int);
    }
    if occurs_at_exec(v, pat, i) {
        return Some(i);
    }
    None
}

proof fn lemma_find_prefix_none(s: Seq<char>, pat: Seq<char>, j: int)
    requires
        0 <= j <= s.len(),
        forall|k: int| 0 <= k < j ==> !occurs_at(s, pat, k),
    ensures
        find_from(s, pat, 0) == find_from(s, pat, j),
{
    lemma_find_prefix_none_from(s, pat, 0, j);
}

proof fn lemma_find_prefix_none_from(s: Seq<char>, pat: Seq<char>, a: int, j: int)
    requires
        0 <= a <= j <= s.len(),
        forall|k: int| a <= k < j ==> !occurs_at(s, pat, k),
    ensures
        find_from(s, pat, a) == find_from(s, pat, j),
    decreases j - a,
{
    if a < j {
        lemma_find_prefix_none_from(s, pat, a + 1, j);
    }
}

/// Whether `pat` occurs in `s`.
pub fn contains_str(s: &str, pat: &str) -> (r: bool)
    ensures
        r == contains_seq(s@, pat@),
{
    let v = chars_of(s);
    let p = chars_of(pat);
    let f = find_first(&v, &p);
    proof {
        lemma_find_seq(s@, pat@);
    }
    f.is_some()
}

/// Whether `s` begins with `p`.
pub fn starts_with_str(s: &str, p: &str) -> (r: bool)
    ensures
        r == starts_with(s@, p@),
{
    let v = chars_of(s);
    let q = chars_of(p);
    let r = occurs_at_exec(&v, &q, 0);
    proof {
        if r {
            assert(v@.subrange(0, q@.len() as int) == v@.take(q@.len() as int));
        } else if q@.len() <= v@.len() {
            assert(v@.subrange(0, q@.len() as int) == v@.take(q@.len() as int));
        }
    }
    r
}


/// `s` with the first occurrence of `from` replaced by `to`, as `str::replacen(from, to, 1)` gives it.
pub open spec fn replace_first(s: Seq<char>, from: Seq<char>, to: Seq<char>) -> Seq<char> {
    match find_seq(s, from) {
        Some(i) => s.take(i) + to + s.skip(i + from.len()),
        None => s,
    }
}

/// Replaces the first occurrence of `from` in `s` with `to`.
pub fn replace_first_str(s: &str, from: &str, to: &str) -> (r: String)
    ensures
        r@ == replace_first(s@, from@, to@),
{
    let v = chars_of(s);
    let p = chars_of(from);
    let t = chars_of(to);
    match find_first(&v, &p) {
        None => string_of(&v),
        Some(i) => {
            proof {
                lemma_find_seq(v@, p@);
            }
            let mut out: Vec<char> = Vec::new();
            let mut k: usize = 0;
            while k < i
                invariant
                    occurs_at(v@, p@, i as int),
                    k <= i,
                    out@ == v@.take(k as int),
                decreases i - k,
            {
                out.push(v[k]);
                assert(v@.take(k + 1) == v@.take(k as int).push(v@[k as int]));
                k = k + 1;
            }
            let mut m: usize = 0;
            while m < t.len()
                invariant
                    occurs_at(v@, p@, i as int),
                    m <= t.len(),
                    out@ == v@.take(i as int) + t@.take(m as int),
                decreases t.len() - m,
            {
                out.push(t[m]);
                assert(t@.take(m + 1) == t@.take(m as int).push(t@[m as int]));
                m = m + 1;
            }
            assert(t@.take(t.len() as int) == t@);
            assert(i + p.len() <= v.len());
            let mut n: usize = i + p.len();
            while n < v.len()
                invariant
                    occurs_at(v@, p@, i as int),
                    i + p.len() <= n <= v.len(),
                    out@ == v@.take(i as int) + t@ + v@.subrange(i + p.len(), n as int),
                decreases v.len() - n,
            {
                out.push(v[n]);
                assert(v@.subrange(i + p.len(), n + 1) == v@.subrange(i + p.len(), n as int).push(
                    v@[n as int],
                ));
                n = n + 1;
            }
            assert(v@.subrange(i + p.len(), v.len() as int) == v@.skip(i + p.len()));
            string_of(&out)
        },
    }
}

/// `s` without any occurrence of `c`, as `str::replace(c, "")` gives it.
pub open spec fn remove_char(s: Seq<char>, c: char) -> Seq<char>
    decreases s.len(),
{
    if s.len() == 0 {
        s
    } else if s.last() == c {
        remove_char(s.drop_last(), c)
    } else {
        remove_char(s.drop_last(), c).push(s.last())
    }
}

/// Removes every occurrence of `c` from `s`.
pub fn remove_char_str(s: &str, c: char) -> (r: String)
    ensures
        r@ == remove_char(s@, c),
{
    let v = chars_of(s);
    let mut out: Vec<char> = Vec::new();
    let mut i: usize = 0;
    while i < v.len()
        invariant
            v@ == s@,
            i <= v.len(),
            out@ == remove_char(v@.take(i as int), c),
        decreases v.len() - i,
    {
        assert(v@.take(i + 1).drop_last() == v@.take(i as int));
        if v[i] != c {
            out.push(v[i]);
        }
        i = i + 1;
    }
    assert(v@.take(v.len() as int) == v@);
    string_of(&out)
}

/// The pieces of `s` between occurrences of `c`, as `str::split(c)` gives them.
pub open spec fn split_on(s: Seq<char>, c: char) -> Seq<Seq<char>>
    decreases s.len(),
{
    if s.len() == 0 {
        seq![Seq::<char>::empty()]
    } else {
        let rest = split_on(s.drop_last(), c);
        if s.last() == c {
            rest.push(Seq::<char>::empty())
        } else {
            rest.update(rest.len() - 1, rest.last().push(s.last()))
        }
    }
}

/// `split_on` always gives at least one piece.
pub proof fn lemma_split_on_len(s: Seq<char>, c: char)
    ensures
        split_on(s, c).len() >= 1,
    decreases s.len(),
{
    if s.len() > 0 {
        lemma_split_on_len(s.drop_last(), c);
    }
}

/// Splits `s` at every occurrence of `c`.
pub fn split_on_char(s: &str, c: char) -> (r: Vec<String>)
    ensures
        strs(r@) == split_on(s@, c),
{
    let v = chars_of(s);
    let mut pieces: Vec<Vec<char>> = Vec::new();
    pieces.push(Vec::new());
    let mut i: usize = 0;
    while i < v.len()
        invariant
            v@ == s@,
            i <= v.len(),
            pieces@.len() >= 1,
            char_vecs(pieces@) == split_on(v@.take(i as int), c),
        decreases v.len() - i,
    {
        assert(v@.take(i + 1).drop_last() == v@.take(i as int));
        proof {
            lemma_split_on_len(v@.take(i as int), c);
        }
        if v[i] == c {
            pieces.push(Vec::new());
            assert(char_vecs(pieces@) =~= split_on(v@.take(i + 1), c));
        } else {
            let last = pieces.len() - 1;
            let mut piece = pieces.pop().unwrap();
            piece.push(v[i]);
            pieces.push(piece);
            assert(char_vecs(pieces@) =~= split_on(v@.take(i + 1), c));
        }
        i = i + 1;
    }
    assert(v@.take(v.len() as int) == v@);
    let out = strings_of(&pieces);
    out
}

/// The views of a sequence of strings.
pub open spec fn strs(v: Seq<String>) -> Seq<Seq<char>> {
    v.map_values(|x: String| x@)
}

/// The views of a sequence of character vectors.
pub open spec fn char_vecs(v: Seq<Vec<char>>) -> Seq<Seq<char>> {
    v.map_values(|x: Vec<char>| x@)
}

/// Turns each character vector into a string.
pub fn strings_of(pieces: &Vec<Vec<char>>) -> (out: Vec<String>)
    ensures
        strs(out@) == char_vecs(pieces@),
{
    let mut out: Vec<String> = Vec::new();
    let mut k: usize = 0;
    while k < pieces.len()
        invariant
            k <= pieces.len(),
            strs(out@) == char_vecs(pieces@).take(k as int),
        decreases pieces.len() - k,
    {
        let piece = string_of(pieces[k].as_slice());
        let ghost old_out = out@;
        assert(strs(old_out).len() == old_out.len());
        assert(char_vecs(pieces@).len() == pieces@.len());
        out.push(piece);
        assert(strs(out@) =~= char_vecs(pieces@).take(k + 1)) by {
            assert forall|j: int| 0 <= j < k + 1 implies strs(out@)[j] == char_vecs(pieces@).take(
                k + 1,
            )[j] by {
                if j < k {
                    assert(out@[j] == old_out[j]);
                    assert(strs(old_out)[j] == char_vecs(pieces@).take(k as int)[j]);
                }
            }
        }
        k = k + 1;
    }
    assert(char_vecs(pieces@).take(pieces.len() as int) == char_vecs(pieces@));
    out
}

/// The first position of `c` in `s`, if any.
pub open spec fn index_of_char(s: Seq<char>, c: char) -> Option<int>
    decreases s.len(),
{
    if s.len() == 0 {
        None
    } else if s[0] == c {
        Some(0)
    } else {
        match index_of_char(s.drop_first(), c) {
            Some(i) => Some(i + 1),
            None => None,
        }
    }
}

/// `index_of_char` gives the first position of `c`, and none exactly when
/// `c` does not occur.
pub proof fn lemma_index_of_char(s: Seq<char>, c: char)
    ensures
        index_of_char(s, c) is None <==> !s.contains(c),
        index_of_char(s, c) matches Some(i) ==> 0 <= i < s.len() && s[i] == c && forall|k: int|
            0 <= k < i ==> s[k] != c,
    decreases s.len(),
{
    if s.len() > 0 {
        lemma_index_of_char(s.drop_first(), c);
        if s[0] != c && s.contains(c) {
            let k = choose|k: int| 0 <= k < s.len() && s[k] == c;
            assert(s.drop_first()[k - 1] == c);
        }
        if s[0] != c {
            if let Some(i) = index_of_char(s.drop_first(), c) {
                assert forall|k: int| 0 <= k < i + 1 implies s[k] != c by {
                    if k > 0 {
                        assert(s[k] == s.drop_first()[k - 1]);
                    }
                }
            }
        }
    }
}

/// `s` cut at the first `c` into the part before it and, when there is
/// one, the part after it, as `str::splitn(2, c)` gives them.
pub open spec fn split_once(s: Seq<char>, c: char) -> (Seq<char>, Option<Seq<char>>) {
    match index_of_char(s, c) {
        Some(i) => (s.take(i), Some(s.skip(i + 1))),
        None => (s, None),
    }
}

/// Cuts `s` at the first occurrence of `c`.
pub fn split_once_str(s: &str, c: char) -> (r: (String, Option<String>))
    ensures
        r.0@ == split_once(s@, c).0,
        r.1 matches Some(x) ==> split_once(s@, c).1 == Some(x@),
        r.1 is None ==> split_once(s@, c).1 is None,
{
    let v = chars_of(s);
    proof {
        lemma_index_of_char(v@, c);
    }
    let mut i: usize = 0;
    while i < v.len() && v[i] != c
        invariant
            v@ == s@,
            i <= v.len(),
            forall|k: int| 0 <= k < i ==> v@[k] != c,
        decreases v.len() - i,
    {
        i = i + 1;
    }
    let before = string_of(slice_prefix(&v, i).as_slice());
    if i == v.len() {
        assert(!v@.contains(c));
        assert(v@.take(i as int) == v@);
        (before, None)
    } else {
        assert(index_of_char(v@, c) == Some(i as int));
        let after = string_of(slice_suffix(&v, i + 1).as_slice());
        (before, Some(after))
    }
}

/// The first `n` elements of `v`.
pub fn slice_prefix<T: Copy>(v: &Vec<T>, n: usize) -> (r: Vec<T>)
    requires
        n <= v.len(),
    ensures
        r@ == v@.take(n as int),
{
    let mut out: Vec<T> = Vec::new();
    let mut k: usize = 0;
    while k < n
        invariant
            k <= n <= v.len(),
            out@ == v@.take(k as int),
        decreases n - k,
    {
        out.push(v[k]);
        assert(v@.take(k + 1) == v@.take(k as int).push(v@[k as int]));
        k = k + 1;
    }
    out
}

/// The elements of `v` from position `n` on.
pub fn slice_suffix<T: Copy>(v: &Vec<T>, n: usize) -> (r: Vec<T>)
    requires
        n <= v.len(),
    ensures
        r@ == v@.skip(n as int),
{
    let mut out: Vec<T> = Vec::new();
    let mut k: usize = n;
    while k < v.len()
        invariant
            n <= k <= v.len(),
            out@ == v@.subrange(n as int, k as int),
        decreases v.len() - k,
    {
        out.push(v[k]);
        assert(v@.subrange(n as int, k + 1) == v@.subrange(n as int, k as int).push(v@[k as int]));
        k = k + 1;
    }
    out
}


/// The pieces joined with `sep` between consecutive ones, as `join` on a
/// slice of strings gives it.
pub open spec fn join(parts: Seq<Seq<char>>, sep: Seq<char>) -> Seq<char>
    decreases parts.len(),
{
    if parts.len() == 0 {
        Seq::<char>::empty()
    } else if parts.len() == 1 {
        parts[0]
    } else {
        join(parts.drop_last(), sep) + sep + parts.last()
    }
}

/// Joins the strings with `sep` between consecutive ones.
pub fn join_strs(parts: &Vec<String>, sep: &str) -> (r: String)
    ensures
        r@ == join(strs(parts@), sep@),
{
    let mut r = String::new();
    let mut i: usize = 0;
    while i < parts.len()
        invariant
            i <= parts.len(),
            r@ == join(strs(parts@).take(i as int), sep@),
        decreases parts.len() - i,
    {
        let ghost taken = strs(parts@).take(i + 1);
        assert(strs(parts@).len() == parts@.len());
        assert(taken.drop_last() == strs(parts@).take(i as int));
        assert(taken.last() == parts@[i as int]@);
        if i > 0 {
            r.append(sep);
        }
        r.append(parts[i].as_str());
        i = i + 1;
    }
    assert(strs(parts@).take(parts.len() as int) == strs(parts@));
    r
}

/// The maximal runs of non-whitespace characters of `s`, as
/// `str::split_whitespace` gives them.
pub open spec fn words(s: Seq<char>) -> Seq<Seq<char>>
    decreases s.len(),
{
    if s.len() == 0 {
        Seq::<Seq<char>>::empty()
    } else {
        let w = words(s.drop_last());
        if is_ws(s.last()) {
            w
        } else if s.len() >= 2 && !is_ws(s[s.len() - 2]) {
            w.update(w.len() - 1, w.last().push(s.last()))
        } else {
            w.push(seq![s.last()])
        }
    }
}

/// A string whose last character is not whitespace has at least one word.
pub proof fn lemma_words_nonempty(s: Seq<char>)
    requires
        s.len() > 0,
        !is_ws(s.last()),
    ensures
        words(s).len() >= 1,
    decreases s.len(),
{
    if s.len() >= 2 && !is_ws(s[s.len() - 2]) {
        assert(s.drop_last().last() == s[s.len() - 2]);
        lemma_words_nonempty(s.drop_last());
    }
}

/// The words of `s`.
pub fn split_whitespace_str(s: &str) -> (r: Vec<String>)
    ensures
        strs(r@) == words(s@),
{
    let v = chars_of(s);
    let mut pieces: Vec<Vec<char>> = Vec::new();
    let mut i: usize = 0;
    while i < v.len()
        invariant
            v@ == s@,
            i <= v.len(),
            char_vecs(pieces@) == words(v@.take(i as int)),
        decreases v.len() - i,
    {
        let ghost t = v@.take(i + 1);
        assert(t.drop_last() == v@.take(i as int));
        assert(t.last() == v@[i as int]);
        assert(char_vecs(pieces@).len() == pieces@.len());
        if is_whitespace(v[i]) {
        } else if i >= 1 && !is_whitespace(v[i - 1]) {
            assert(t[t.len() - 2] == v@[i - 1]);
            proof {
                lemma_words_nonempty(v@.take(i as int));
                assert(v@.take(i as int).last() == v@[i - 1]);
            }
            let mut w = pieces.pop().unwrap();
            w.push(v[i]);
            pieces.push(w);
            assert(char_vecs(pieces@) =~= words(t));
        } else {
            let mut w: Vec<char> = Vec::new();
            w.push(v[i]);
            pieces.push(w);
            assert(char_vecs(pieces@) =~= words(t));
        }
        i = i + 1;
    }
    assert(v@.take(v.len() as int) == v@);
    strings_of(&pieces)
}

/// `s` without the leading characters for which `p` holds.
pub open spec fn strip_start(s: Seq<char>, p: spec_fn(char) -> bool) -> Seq<char>
    decreases s.len(),
{
    if s.len() > 0 && p(s[0]) {
        strip_start(s.drop_first(), p)
    } else {
        s
    }
}

/// `s` without the trailing characters for which `p` holds.
pub open spec fn strip_end(s: Seq<char>, p: spec_fn(char) -> bool) -> Seq<char>
    decreases s.len(),
{
    if s.len() > 0 && p(s.last()) {
        strip_end(s.drop_last(), p)
    } else {
        s
    }
}

/// The characters that surround a named parameter: `#`, `{` and `}`.
pub open spec fn is_mark(c: char) -> bool {
    c == '#' || c == '{' || c == '}'
}

/// `s` without leading and trailing `#`, `{` and `}`, as
/// `str::trim_matches` with that set gives it.
pub open spec fn trim_marks(s: Seq<char>) -> Seq<char> {
    strip_end(strip_start(s, |c: char| is_mark(c)), |c: char| is_mark(c))
}

proof fn lemma_strip_start_skip(s: Seq<char>, p: spec_fn(char) -> bool, i: int)
    requires
        0 <= i <= s.len(),
        forall|k: int| 0 <= k < i ==> p(s[k]),
    ensures
        strip_start(s, p) == strip_start(s.skip(i), p),
    decreases i,
{
    if i > 0 {
        assert(s.skip(1) == s.drop_first());
        lemma_strip_start_skip(s.drop_first(), p, i - 1);
        assert(s.drop_first().skip(i - 1) == s.skip(i));
    } else {
        assert(s.skip(0) == s);
    }
}

proof fn lemma_strip_end_take(s: Seq<char>, p: spec_fn(char) -> bool, j: int)
    requires
        0 <= j <= s.len(),
        forall|k: int| j <= k < s.len() ==> p(s[k]),
    ensures
        strip_end(s, p) == strip_end(s.take(j), p),
    decreases s.len() - j,
{
    if j < s.len() {
        assert(s.take(s.len() - 1) == s.drop_last());
        lemma_strip_end_take(s.drop_last(), p, j);
        assert(s.drop_last().take(j) == s.take(j));
    } else {
        assert(s.take(j) == s);
    }
}

fn is_mark_exec(c: char) -> (r: bool)
    ensures
        r == is_mark(c),
{
    c == '#' || c == '{' || c == '}'
}

/// `s` without leading and trailing `#`, `{` and `}`.
pub fn trim_marks_str(s: &str) -> (r: String)
    ensures
        r@ == trim_marks(s@),
{
    let ghost p = |c: char| is_mark(c);
    let v = chars_of(s);
    let mut i: usize = 0;
    while i < v.len() && is_mark_exec(v[i])
        invariant
            v@ == s@,
            i <= v.len(),
            forall|k: int| 0 <= k < i ==> is_mark(v@[k]),
        decreases v.len() - i,
    {
        i = i + 1;
    }
    proof {
        lemma_strip_start_skip(v@, p, i as int);
        let t = v@.skip(i as int);
        if t.len() > 0 {
            assert(t[0] == v@[i as int]);
        }
    }
    let mut j: usize = v.len();
    while j > i && is_mark_exec(v[j - 1])
        invariant
            v@ == s@,
            i <= j <= v.len(),
            forall|k: int| j <= k < v.len() ==> is_mark(v@[k]),
        decreases j,
    {
        j = j - 1;
    }
    let ghost t = v@.skip(i as int);
    proof {
        assert(strip_start(v@, p) == t);
        lemma_strip_end_take(t, p, j - i);
        let u = t.take(j - i);
        assert(u == v@.subrange(i as int, j as int));
        if u.len() > 0 {
            assert(u.last() == v@[j - 1]);
        }
    }
    let w = slice_suffix(&slice_prefix(&v, j), i);
    assert(w@ == v@.subrange(i as int, j as int));
    string_of(w.as_slice())
}


/// A string holding `c` splits into at least two pieces at `c`.
pub proof fn lemma_split_on_contains(s: Seq<char>, c: char)
    requires
        s.contains(c),
    ensures
        split_on(s, c).len() >= 2,
    decreases s.len(),
{
    lemma_split_on_len(s.drop_last(), c);
    if s.last() != c {
        let i = choose|i: int| 0 <= i < s.len() && s[i] == c;
        assert(s.drop_last()[i] == c);
        lemma_split_on_contains(s.drop_last(), c);
    }
}

} // verus!
