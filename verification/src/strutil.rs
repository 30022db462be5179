//! Verified string utilities: equality, searching, splitting and joining on a
//! separator character, decimal conversion, trimming and ASCII lowercasing.
//! These are the building blocks of the path router, the range parser and the
//! authentication engine.

use vstd::prelude::*;

verus! {

// ---------------------------------------------------------------------------
// Equality and searching
// ---------------------------------------------------------------------------

/// Character-wise string equality, usable where `&str == &str` has no
/// specification.
pub fn str_eq(a: &str, b: &str) -> (r: bool)
    ensures
        r == (a@ == b@),
{
    let na = a.unicode_len();
    let nb = b.unicode_len();
    if na != nb {
        assert(a@ != b@) by {
            assert(a@.len() != b@.len());
        }
        return false;
    }
    let mut i: usize = 0;
    while i < na
        invariant
            na == a@.len(),
            na == b@.len(),
            i <= na,
            forall|j: int| 0 <= j < i ==> a@[j] == b@[j],
        decreases na - i,
    {
        if a.get_char(i) != b.get_char(i) {
            return false;
        }
        i += 1;
    }
    proof {
        assert(a@ =~= b@);
    }
    true
}

/// Index of the first occurrence of `c` in `s`, or -1 when `s` does not
/// contain `c`.
pub open spec fn first_index_of(s: Seq<char>, c: char) -> int
    decreases s.len(),
{
    if s.len() == 0 {
        -1
    } else if s[0] == c {
        0
    } else {
        let r = first_index_of(s.skip(1), c);
        if r < 0 {
            -1
        } else {
            r + 1
        }
    }
}

pub open spec fn contains_char(s: Seq<char>, c: char) -> bool {
    exists|i: int| 0 <= i < s.len() && s[i] == c
}

/// `first_index_of` finds exactly the first occurrence, and finds none only
/// when there is none.
pub proof fn lemma_first_index_of(s: Seq<char>, c: char)
    ensures
        first_index_of(s, c) >= -1,
        first_index_of(s, c) == -1 <==> !contains_char(s, c),
        first_index_of(s, c) >= 0 ==> {
            &&& first_index_of(s, c) < s.len()
            &&& s[first_index_of(s, c)] == c
            &&& forall|j: int| 0 <= j < first_index_of(s, c) ==> s[j] != c
        },
    decreases s.len(),
{
    if s.len() == 0 {
    } else if s[0] == c {
    } else {
        lemma_first_index_of(s.skip(1), c);
        let r = first_index_of(s.skip(1), c);
        if r >= 0 {
            assert(forall|j: int| 1 <= j < r + 1 ==> s[j] == s.skip(1)[j - 1]);
        } else {
            assert(!contains_char(s.skip(1), c));
            if contains_char(s, c) {
                let i = choose|i: int| 0 <= i < s.len() && s[i] == c;
                assert(i >= 1);
                assert(s.skip(1)[i - 1] == c);
            }
        }
    }
}

/// First occurrence of `c` in `s`, as an executable scan.
pub fn find_char(s: &str, c: char) -> (r: Option<usize>)
    ensures
        r matches Some(i) ==> i == first_index_of(s@, c),
        r is None ==> first_index_of(s@, c) == -1,
{
    let n = s.unicode_len();
    let mut i: usize = 0;
    while i < n
        invariant
            n == s@.len(),
            i <= n,
            forall|j: int| 0 <= j < i ==> s@[j] != c,
        decreases n - i,
    {
        if s.get_char(i) == c {
            proof {
                lemma_first_index_of(s@, c);
                let fi = first_index_of(s@, c);
                assert(s@[i as int] == c);
                assert(contains_char(s@, c));
                assert(fi >= 0);
                if fi < i {
                    assert(s@[fi] == c);
                    assert(false);
                }
                if fi > i {
                    assert(s@[i as int] != c);
                    assert(false);
                }
            }
            return Some(i);
        }
        i += 1;
    }
    proof {
        lemma_first_index_of(s@, c);
        if contains_char(s@, c) {
            let k = choose|k: int| 0 <= k < s@.len() && s@[k] == c;
            assert(s@[k] != c);
        }
    }
    None
}

/// Whether `s` begins with the characters of `p`.
pub open spec fn starts_with_spec(s: Seq<char>, p: Seq<char>) -> bool {
    s.len() >= p.len() && s.take(p.len() as int) == p
}

pub fn starts_with(s: &str, p: &str) -> (r: bool)
    ensures
        r == starts_with_spec(s@, p@),
{
    let np = p.unicode_len();
    let ns = s.unicode_len();
    if ns < np {
        return false;
    }
    let mut i: usize = 0;
    while i < np
        invariant
            np == p@.len(),
            ns == s@.len(),
            np <= ns,
            i <= np,
            forall|j: int| 0 <= j < i ==> s@[j] == p@[j],
        decreases np - i,
    {
        if s.get_char(i) != p.get_char(i) {
            proof {
                assert(s@.take(np as int)[i as int] != p@[i as int]);
            }
            return false;
        }
        i += 1;
    }
    proof {
        assert(s@.take(np as int) =~= p@);
    }
    true
}

/// Whether `s` ends with the characters of `p`.
pub open spec fn ends_with_spec(s: Seq<char>, p: Seq<char>) -> bool {
    s.len() >= p.len() && s.skip(s.len() - p.len()) == p
}

pub fn ends_with(s: &str, p: &str) -> (r: bool)
    ensures
        r == ends_with_spec(s@, p@),
{
    let np = p.unicode_len();
    let ns = s.unicode_len();
    if ns < np {
        return false;
    }
    let off = ns - np;
    let mut i: usize = 0;
    while i < np
        invariant
            np == p@.len(),
            ns == s@.len(),
            np <= ns,
            off == ns - np,
            i <= np,
            forall|j: int| 0 <= j < i ==> s@[off + j] == p@[j],
        decreases np - i,
    {
        if s.get_char(off + i) != p.get_char(i) {
            proof {
                assert(s@.skip(off as int)[i as int] != p@[i as int]);
            }
            return false;
        }
        i += 1;
    }
    proof {
        assert(s@.skip(off as int) =~= p@);
    }
    true
}

/// `s` with every leading `c` removed.
pub open spec fn strip_leading_spec(s: Seq<char>, c: char) -> Seq<char>
    decreases s.len(),
{
    if s.len() > 0 && s[0] == c {
        strip_leading_spec(s.skip(1), c)
    } else {
        s
    }
}

proof fn lemma_strip_leading_range(s: Seq<char>, c: char, a: int)
    requires
        0 <= a <= s.len(),
        forall|k: int| 0 <= k < a ==> s[k] == c,
        a < s.len() ==> s[a] != c,
    ensures
        strip_leading_spec(s, c) == s.skip(a),
    decreases a,
{
    if a == 0 {
        assert(s.skip(0) =~= s);
    } else {
        lemma_strip_leading_range(s.skip(1), c, a - 1);
        assert(s.skip(1).skip(a - 1) =~= s.skip(a));
    }
}

/// Remove every leading occurrence of `c`.
pub fn strip_leading(s: &str, c: char) -> (r: &str)
    ensures
        r@ == strip_leading_spec(s@, c),
{
    let n = s.unicode_len();
    let mut a: usize = 0;
    while a < n
        invariant
            n == s@.len(),
            a <= n,
            forall|k: int| 0 <= k < a ==> s@[k] == c,
        ensures
            n == s@.len(),
            a <= n,
            forall|k: int| 0 <= k < a ==> s@[k] == c,
            a < n ==> s@[a as int] != c,
        decreases n - a,
    {
        if s.get_char(a) != c {
            break;
        }
        a += 1;
    }
    proof {
        lemma_strip_leading_range(s@, c, a as int);
        assert(s@.subrange(a as int, n as int) =~= s@.skip(a as int));
    }
    s.substring_char(a, n)
}

/// Whether `sub` occurs contiguously anywhere in `s`.
pub open spec fn contains_seq(s: Seq<char>, sub: Seq<char>) -> bool {
    exists|i: int|
        0 <= i <= s.len() - sub.len() && #[trigger] s.subrange(i, i + sub.len() as int) == sub
}

pub fn contains_str(s: &str, sub: &str) -> (r: bool)
    ensures
        r == contains_seq(s@, sub@),
{
    let m = sub.unicode_len();
    let n = s.unicode_len();
    if m > n {
        return false;
    }
    if m == 0 {
        proof {
            assert(s@.subrange(0, 0 + sub@.len() as int) =~= sub@);
            assert(contains_seq(s@, sub@));
        }
        return true;
    }
    let mut i: usize = 0;
    while i <= n - m
        invariant
            m == sub@.len(),
            n == s@.len(),
            0 < m <= n,
            i <= n - m + 1,
            forall|k: int| 0 <= k < i ==> #[trigger] s@.subrange(k, k + m as int) != sub@,
        decreases n - i,
    {
        let mut j: usize = 0;
        let mut hit = true;
        while hit && j < m
            invariant
                m == sub@.len(),
                n == s@.len(),
                m <= n,
                i <= n - m,
                j <= m,
                hit ==> forall|t: int| 0 <= t < j ==> s@[i + t] == sub@[t],
                !hit ==> s@.subrange(i as int, i + m as int) != sub@,
            decreases m - j + (if hit { 1int } else { 0int }),
        {
            if s.get_char(i + j) != sub.get_char(j) {
                proof {
                    assert(s@.subrange(i as int, i + m as int)[j as int] != sub@[j as int]);
                }
                hit = false;
            } else {
                j += 1;
            }
        }
        if hit {
            proof {
                assert(s@.subrange(i as int, i + m as int) =~= sub@);
            }
            return true;
        }
        i += 1;
    }
    proof {
        if contains_seq(s@, sub@) {
            let k = choose|k: int|
                0 <= k <= s@.len() - sub@.len() && #[trigger] s@.subrange(k, k + sub@.len() as int)
                    == sub@;
            assert(s@.subrange(k, k + m as int) != sub@);
        }
    }
    false
}

// ---------------------------------------------------------------------------
// Splitting and joining on a separator character
// ---------------------------------------------------------------------------

/// The segments of `s` between occurrences of `sep`, as `str::split` yields
/// them: always at least one segment, and an empty string yields one empty
/// segment.
pub open spec fn split_char(s: Seq<char>, sep: char) -> Seq<Seq<char>>
    decreases s.len(),
{
    if s.len() == 0 {
        seq![Seq::<char>::empty()]
    } else if s[0] == sep {
        seq![Seq::<char>::empty()] + split_char(s.skip(1), sep)
    } else {
        let r = split_char(s.skip(1), sep);
        seq![seq![s[0]] + r[0]] + r.skip(1)
    }
}

/// The segments joined back together with `sep` between them.
pub open spec fn join_char(parts: Seq<Seq<char>>, sep: char) -> Seq<char>
    decreases parts.len(),
{
    if parts.len() == 0 {
        Seq::<char>::empty()
    } else if parts.len() == 1 {
        parts[0]
    } else {
        parts[0] + seq![sep] + join_char(parts.skip(1), sep)
    }
}

pub open spec fn sep_free(s: Seq<char>, sep: char) -> bool {
    forall|i: int| 0 <= i < s.len() ==> s[i] != sep
}

pub proof fn lemma_split_len(s: Seq<char>, sep: char)
    ensures
        split_char(s, sep).len() >= 1,
    decreases s.len(),
{
    if s.len() == 0 {
    } else {
        lemma_split_len(s.skip(1), sep);
    }
}

/// Splitting `a + b` where `a` is separator-free glues `a` onto the first
/// segment of `split_char(b)`.
pub proof fn lemma_split_prepend_sep_free(a: Seq<char>, b: Seq<char>, sep: char)
    requires
        sep_free(a, sep),
    ensures
        split_char(a + b, sep) == seq![a + split_char(b, sep)[0]] + split_char(b, sep).skip(1),
    decreases a.len(),
{
    lemma_split_len(b, sep);
    if a.len() == 0 {
        assert(a + b =~= b);
        assert(split_char(b, sep) =~= seq![split_char(b, sep)[0]] + split_char(b, sep).skip(1));
        assert(a + split_char(b, sep)[0] =~= split_char(b, sep)[0]);
    } else {
        let s = a + b;
        assert(s.len() > 0 && s[0] == a[0] && a[0] != sep);
        assert(s.skip(1) =~= a.skip(1) + b);
        lemma_split_prepend_sep_free(a.skip(1), b, sep);
        let r = split_char(a.skip(1) + b, sep);
        assert(split_char(s, sep) == seq![seq![s[0]] + r[0]] + r.skip(1));
        assert(r[0] == a.skip(1) + split_char(b, sep)[0]);
        assert(seq![s[0]] + r[0] =~= a + split_char(b, sep)[0]);
        assert(r.skip(1) =~= split_char(b, sep).skip(1));
        assert(split_char(s, sep) =~= seq![a + split_char(b, sep)[0]] + split_char(b, sep).skip(
            1,
        ));
    }
}

/// A separator-free string splits into exactly itself.
pub proof fn lemma_split_single(a: Seq<char>, sep: char)
    requires
        sep_free(a, sep),
    ensures
        split_char(a, sep) == seq![a],
{
    lemma_split_prepend_sep_free(a, Seq::<char>::empty(), sep);
    assert(a + Seq::<char>::empty() =~= a);
    assert(split_char(Seq::<char>::empty(), sep) == seq![Seq::<char>::empty()]);
    assert(a + Seq::<char>::empty() =~= a);
    assert(split_char(a, sep) =~= seq![a]);
}

/// Splitting at a separator: `split(a + sep + b) == split(a) + split(b)` when
/// `a` is separator-free reduces to `[a] + split(b)`.
pub proof fn lemma_split_at_sep(a: Seq<char>, b: Seq<char>, sep: char)
    requires
        sep_free(a, sep),
    ensures
        split_char(a + seq![sep] + b, sep) == seq![a] + split_char(b, sep),
{
    let m = seq![sep] + b;
    assert(m.len() > 0 && m[0] == sep);
    assert(m.skip(1) =~= b);
    assert(split_char(m, sep) == seq![Seq::<char>::empty()] + split_char(b, sep));
    assert(a + seq![sep] + b =~= a + m);
    lemma_split_prepend_sep_free(a, m, sep);
    lemma_split_len(b, sep);
    assert(split_char(m, sep)[0] == Seq::<char>::empty());
    assert(a + split_char(m, sep)[0] =~= a);
    assert(split_char(m, sep).skip(1) =~= split_char(b, sep));
    assert(split_char(a + seq![sep] + b, sep) =~= seq![a] + split_char(b, sep));
}

/// Splitting distributes over a separator, whatever stands around it:
/// `split(a + sep + b) == split(a) + split(b)`.
pub proof fn lemma_split_concat(a: Seq<char>, b: Seq<char>, sep: char)
    ensures
        split_char(a + seq![sep] + b, sep) == split_char(a, sep) + split_char(b, sep),
    decreases a.len(),
{
    lemma_split_len(b, sep);
    if a.len() == 0 {
        let s = a + seq![sep] + b;
        assert(s.len() > 0 && s[0] == sep);
        assert(s.skip(1) =~= b);
        assert(split_char(s, sep) == seq![Seq::<char>::empty()] + split_char(b, sep));
        assert(split_char(a, sep) == seq![Seq::<char>::empty()]);
        assert(seq![Seq::<char>::empty()] + split_char(b, sep) =~= split_char(a, sep) + split_char(
            b,
            sep,
        ));
    } else {
        let s = a + seq![sep] + b;
        lemma_split_concat(a.skip(1), b, sep);
        assert(s.skip(1) =~= a.skip(1) + seq![sep] + b);
        let r = split_char(a.skip(1) + seq![sep] + b, sep);
        assert(r == split_char(a.skip(1), sep) + split_char(b, sep));
        lemma_split_len(a.skip(1), sep);
        if a[0] == sep {
            assert(s[0] == sep);
            assert(split_char(s, sep) == seq![Seq::<char>::empty()] + r);
            assert(split_char(a, sep) == seq![Seq::<char>::empty()] + split_char(a.skip(1), sep));
            assert(seq![Seq::<char>::empty()] + r =~= split_char(a, sep) + split_char(b, sep));
        } else {
            assert(s[0] == a[0]);
            assert(split_char(s, sep) == seq![seq![s[0]] + r[0]] + r.skip(1));
            let ra = split_char(a.skip(1), sep);
            assert(r[0] == ra[0]);
            assert(r.skip(1) =~= ra.skip(1) + split_char(b, sep));
            assert(split_char(a, sep) == seq![seq![a[0]] + ra[0]] + ra.skip(1));
            assert(seq![seq![s[0]] + r[0]] + r.skip(1) =~= split_char(a, sep) + split_char(
                b,
                sep,
            ));
        }
    }
}

/// Joining the segments of a split restores the original string.
pub proof fn lemma_join_split(s: Seq<char>, sep: char)
    ensures
        join_char(split_char(s, sep), sep) == s,
    decreases s.len(),
{
    lemma_split_len(s, sep);
    if s.len() == 0 {
        assert(join_char(split_char(s, sep), sep) =~= s);
    } else if s[0] == sep {
        lemma_join_split(s.skip(1), sep);
        lemma_split_len(s.skip(1), sep);
        let p = split_char(s, sep);
        assert(p.len() >= 2);
        assert(p[0] == Seq::<char>::empty());
        assert(p.skip(1) =~= split_char(s.skip(1), sep));
        assert(join_char(p, sep) == p[0] + seq![sep] + join_char(split_char(s.skip(1), sep), sep));
        assert(join_char(p, sep) =~= s);
    } else {
        lemma_join_split(s.skip(1), sep);
        lemma_split_len(s.skip(1), sep);
        let r = split_char(s.skip(1), sep);
        let p = split_char(s, sep);
        assert(p == seq![seq![s[0]] + r[0]] + r.skip(1));
        if r.len() == 1 {
            assert(p.len() == 1);
            assert(p[0] == seq![s[0]] + r[0]);
            assert(join_char(r, sep) == r[0]);
            assert(join_char(p, sep) == seq![s[0]] + r[0]);
            assert(join_char(p, sep) =~= s);
        } else {
            assert(p.len() >= 2);
            assert(p[0] == seq![s[0]] + r[0]);
            assert(p.skip(1) =~= r.skip(1));
            assert(join_char(p, sep) == p[0] + seq![sep] + join_char(r.skip(1), sep));
            assert(join_char(r, sep) == r[0] + seq![sep] + join_char(r.skip(1), sep));
            assert(join_char(r, sep) =~= s.skip(1));
            assert(p[0] + seq![sep] + join_char(r.skip(1), sep) =~= seq![s[0]] + (r[0] + seq![sep]
                + join_char(r.skip(1), sep)));
            assert(seq![s[0]] + s.skip(1) =~= s);
            assert(join_char(p, sep) =~= s);
        }
    }
}

/// Joining after adding one more segment appends a separator and the segment.
pub proof fn lemma_join_push(parts: Seq<Seq<char>>, x: Seq<char>, sep: char)
    ensures
        parts.len() == 0 ==> join_char(parts.push(x), sep) == x,
        parts.len() > 0 ==> join_char(parts.push(x), sep) == join_char(parts, sep) + seq![sep] + x,
    decreases parts.len(),
{
    if parts.len() == 0 {
        assert(parts.push(x) =~= seq![x]);
    } else if parts.len() == 1 {
        let p = parts.push(x);
        assert(p.len() == 2);
        assert(p[0] == parts[0]);
        assert(p.skip(1) =~= seq![x]);
        assert(join_char(seq![x], sep) == x);
        assert(join_char(p, sep) == p[0] + seq![sep] + join_char(p.skip(1), sep));
        assert(join_char(p, sep) == parts[0] + seq![sep] + x);
        assert(join_char(parts, sep) == parts[0]);
    } else {
        lemma_join_push(parts.skip(1), x, sep);
        let p = parts.push(x);
        assert(p.skip(1) =~= parts.skip(1).push(x));
        assert(join_char(p, sep) == p[0] + seq![sep] + join_char(parts.skip(1).push(x), sep));
        assert(join_char(parts.skip(1).push(x), sep) == join_char(parts.skip(1), sep) + seq![sep]
            + x);
        assert(join_char(p, sep) =~= join_char(parts, sep) + seq![sep] + x);
    }
}

/// Index of the first element of `parts` equal to `key`, or -1.
pub open spec fn find_seg(parts: Seq<Seq<char>>, key: Seq<char>) -> int
    decreases parts.len(),
{
    if parts.len() == 0 {
        -1
    } else if parts[0] == key {
        0
    } else {
        let r = find_seg(parts.skip(1), key);
        if r < 0 {
            -1
        } else {
            r + 1
        }
    }
}

/// `find_seg` finds exactly the first matching segment, and finds none only
/// when there is none.
pub proof fn lemma_find_seg(parts: Seq<Seq<char>>, key: Seq<char>)
    ensures
        find_seg(parts, key) >= -1,
        find_seg(parts, key) == -1 ==> forall|i: int| 0 <= i < parts.len() ==> parts[i] != key,
        find_seg(parts, key) >= 0 ==> {
            &&& find_seg(parts, key) < parts.len()
            &&& parts[find_seg(parts, key)] == key
            &&& forall|j: int| 0 <= j < find_seg(parts, key) ==> parts[j] != key
        },
    decreases parts.len(),
{
    if parts.len() == 0 {
    } else if parts[0] == key {
    } else {
        lemma_find_seg(parts.skip(1), key);
        let r = find_seg(parts.skip(1), key);
        if r >= 0 {
            assert(forall|j: int| 1 <= j < r + 1 ==> parts[j] == parts.skip(1)[j - 1]);
        } else {
            assert(forall|i: int| 1 <= i < parts.len() ==> parts[i] == parts.skip(1)[i - 1]);
        }
    }
}

/// The segments of `s` between occurrences of `sep`, executably.
pub fn split_str(s: &str, sep: char) -> (r: Vec<String>)
    ensures
        r.deep_view() == split_char(s@, sep),
{
    let n = s.unicode_len();
    let mut acc: Vec<String> = Vec::new();
    let mut seg_start: usize = 0;
    let mut i: usize = 0;
    proof {
        assert(s@.subrange(0, n as int) =~= s@);
        assert(acc.deep_view() =~= Seq::<Seq<char>>::empty());
        assert(acc.deep_view() + split_char(s@, sep) =~= split_char(s@, sep));
    }
    while i < n
        invariant
            n == s@.len(),
            seg_start <= i <= n,
            sep_free(s@.subrange(seg_start as int, i as int), sep),
            split_char(s@, sep) == acc.deep_view() + split_char(
                s@.subrange(seg_start as int, n as int),
                sep,
            ),
        decreases n - i,
    {
        if s.get_char(i) == sep {
            let seg = s.substring_char(seg_start, i).to_owned();
            let ghost pre = acc.deep_view();
            let ghost segv = seg@;
            proof {
                let a = s@.subrange(seg_start as int, i as int);
                let rest = s@.subrange(i + 1, n as int);
                assert(s@.subrange(seg_start as int, n as int) =~= a + seq![sep] + rest);
                lemma_split_at_sep(a, rest, sep);
                assert((pre + (seq![a] + split_char(rest, sep))) =~= (pre.push(segv) + split_char(
                    rest,
                    sep,
                )));
            }
            acc.push(seg);
            seg_start = i + 1;
            proof {
                assert(acc.deep_view() =~= pre.push(segv));
                assert(sep_free(s@.subrange(seg_start as int, seg_start as int), sep));
            }
        } else {
            proof {
                assert(s@.subrange(seg_start as int, i + 1) =~= s@.subrange(
                    seg_start as int,
                    i as int,
                ).push(s@[i as int]));
            }
        }
        i += 1;
    }
    let seg = s.substring_char(seg_start, n).to_owned();
    let ghost pre = acc.deep_view();
    let ghost segv = seg@;
    proof {
        let a = s@.subrange(seg_start as int, n as int);
        lemma_split_single(a, sep);
        assert((pre + seq![a]) =~= pre.push(segv));
    }
    acc.push(seg);
    proof {
        assert(acc.deep_view() =~= pre.push(segv));
    }
    acc
}

/// Join the first `count` elements of `parts` with `sep` between them,
/// executably. The separator is passed both as the character the
/// specification speaks of and as the one-character string appended.
pub fn join_prefix(parts: &Vec<String>, count: usize, sep: char, sep_str: &str) -> (r: String)
    requires
        count <= parts@.len(),
        sep_str@ == seq![sep],
    ensures
        r@ == join_char(parts.deep_view().take(count as int), sep),
{
    let mut out = String::new();
    let mut i: usize = 0;
    while i < count
        invariant
            count <= parts@.len(),
            sep_str@ == seq![sep],
            i <= count,
            out@ == join_char(parts.deep_view().take(i as int), sep),
        decreases count - i,
    {
        if i > 0 {
            out.append(sep_str);
        }
        out.append(parts[i].as_str());
        proof {
            let dv = parts.deep_view();
            assert(dv.take(i + 1) =~= dv.take(i as int).push(dv[i as int]));
            lemma_join_push(dv.take(i as int), dv[i as int], sep);
            if i == 0 {
                assert(dv.take(0int).len() == 0);
                assert(out@ =~= join_char(dv.take(i + 1), sep));
            } else {
                assert(dv.take(i as int).len() == i);
                assert(out@ =~= join_char(dv.take(i + 1), sep));
            }
        }
        i += 1;
    }
    out
}

// ---------------------------------------------------------------------------
// Decimal numbers
// ---------------------------------------------------------------------------

pub open spec fn is_digit_char(c: char) -> bool {
    '0' <= c && c <= '9'
}

pub open spec fn digit_val(c: char) -> nat {
    if is_digit_char(c) {
        (c as nat - '0' as nat) as nat
    } else {
        0
    }
}

pub open spec fn all_digits(s: Seq<char>) -> bool {
    forall|i: int| 0 <= i < s.len() ==> is_digit_char(s[i])
}

/// The numeric value of a digit string, most significant digit first.
pub open spec fn dec_value(s: Seq<char>) -> nat
    decreases s.len(),
{
    if s.len() == 0 {
        0
    } else {
        dec_value(s.drop_last()) * 10 + digit_val(s.last())
    }
}

/// What `str::parse::<u64>` accepts: an optional leading `+`, then one or
/// more digits, whose value fits in a `u64`.
pub open spec fn parse_u64_spec(s: Seq<char>) -> Option<u64> {
    let t = if s.len() > 0 && s[0] == '+' {
        s.skip(1)
    } else {
        s
    };
    if t.len() > 0 && all_digits(t) && dec_value(t) <= u64::MAX {
        Some(dec_value(t) as u64)
    } else {
        None
    }
}

/// A digit string's value only grows as more digits follow.
pub proof fn lemma_dec_value_prefix(s: Seq<char>, k: int)
    requires
        0 <= k <= s.len(),
    ensures
        dec_value(s.take(k)) <= dec_value(s),
    decreases s.len() - k,
{
    if k == s.len() {
        assert(s.take(k) =~= s);
    } else {
        lemma_dec_value_prefix(s, k + 1);
        let p = s.take(k + 1);
        assert(p.drop_last() =~= s.take(k));
        assert(dec_value(p) == dec_value(s.take(k)) * 10 + digit_val(s[k]));
        assert(dec_value(s.take(k)) * 10 >= dec_value(s.take(k))) by (nonlinear_arith);
    }
}

/// Parse a decimal `u64` as `str::parse::<u64>` would, rejecting anything
/// but (optionally `+`-prefixed) digits and values that overflow.
pub fn parse_u64(s: &str) -> (r: Option<u64>)
    ensures
        r == parse_u64_spec(s@),
{
    let n = s.unicode_len();
    let mut start: usize = 0;
    if n > 0 && s.get_char(0) == '+' {
        start = 1;
    }
    let ghost t = if s@.len() > 0 && s@[0] == '+' {
        s@.skip(1)
    } else {
        s@
    };
    if start >= n {
        return None;
    }
    let mut v: u64 = 0;
    let mut i: usize = start;
    while i < n
        invariant
            n == s@.len(),
            start <= i <= n,
            start < n,
            start == 0 || start == 1,
            start == 1 ==> s@.len() > 0 && s@[0] == '+',
            start == 0 ==> !(s@.len() > 0 && s@[0] == '+'),
            t == s@.skip(start as int),
            t == (if s@.len() > 0 && s@[0] == '+' {
                s@.skip(1)
            } else {
                s@
            }),
            all_digits(t.take(i - start)),
            v == dec_value(t.take(i - start)),
        decreases n - i,
    {
        let c = s.get_char(i);
        let u = c as u32;
        proof {
            assert(t[i - start] == s@[i as int]);
            assert(t.take(i + 1 - start).drop_last() =~= t.take(i - start));
        }
        if u < 48 || u > 57 {
            proof {
                assert(!is_digit_char(t[i - start]));
                assert(!all_digits(t));
            }
            return None;
        }
        let d: u64 = (u - 48) as u64;
        proof {
            assert(is_digit_char(t[i - start]) && digit_val(t[i - start]) == d);
        }
        if v > (u64::MAX - d) / 10 {
            proof {
                let w = t.take(i + 1 - start);
                assert(dec_value(w) == v * 10 + d);
                assert(v * 10 + d > u64::MAX) by (nonlinear_arith)
                    requires
                        v > (u64::MAX - d) / 10 && d <= 9,
                ;
                lemma_dec_value_prefix(t, i + 1 - start);
            }
            return None;
        }
        proof {
            assert(v * 10 + d <= u64::MAX) by (nonlinear_arith)
                requires
                    v <= (u64::MAX - d) / 10 && d <= 9,
            ;
        }
        v = v * 10 + d;
        i += 1;
    }
    proof {
        assert(t.take(n - start) =~= t);
    }
    Some(v)
}

pub open spec fn digit_char(d: nat) -> char {
    if d == 0 {
        '0'
    } else if d == 1 {
        '1'
    } else if d == 2 {
        '2'
    } else if d == 3 {
        '3'
    } else if d == 4 {
        '4'
    } else if d == 5 {
        '5'
    } else if d == 6 {
        '6'
    } else if d == 7 {
        '7'
    } else if d == 8 {
        '8'
    } else {
        '9'
    }
}

/// The decimal rendering of `n`, most significant digit first, no sign and
/// no leading zeros (except for `n == 0` itself).
pub open spec fn dec_str(n: nat) -> Seq<char>
    decreases n,
{
    if n < 10 {
        seq![digit_char(n)]
    } else {
        dec_str(n / 10) + seq![digit_char(n % 10)]
    }
}

fn digit_str(d: u64) -> (r: &'static str)
    requires
        d < 10,
    ensures
        r@ == seq![digit_char(d as nat)],
{
    if d == 0 {
        proof {
            reveal_strlit("0");
            assert("0"@ =~= seq![digit_char(0)]);
        }
        "0"
    } else if d == 1 {
        proof {
            reveal_strlit("1");
            assert("1"@ =~= seq![digit_char(1)]);
        }
        "1"
    } else if d == 2 {
        proof {
            reveal_strlit("2");
            assert("2"@ =~= seq![digit_char(2)]);
        }
        "2"
    } else if d == 3 {
        proof {
            reveal_strlit("3");
            assert("3"@ =~= seq![digit_char(3)]);
        }
        "3"
    } else if d == 4 {
        proof {
            reveal_strlit("4");
            assert("4"@ =~= seq![digit_char(4)]);
        }
        "4"
    } else if d == 5 {
        proof {
            reveal_strlit("5");
            assert("5"@ =~= seq![digit_char(5)]);
        }
        "5"
    } else if d == 6 {
        proof {
            reveal_strlit("6");
            assert("6"@ =~= seq![digit_char(6)]);
        }
        "6"
    } else if d == 7 {
        proof {
            reveal_strlit("7");
            assert("7"@ =~= seq![digit_char(7)]);
        }
        "7"
    } else if d == 8 {
        proof {
            reveal_strlit("8");
            assert("8"@ =~= seq![digit_char(8)]);
        }
        "8"
    } else {
        proof {
            reveal_strlit("9");
            assert("9"@ =~= seq![digit_char(9)]);
        }
        "9"
    }
}

/// Render `n` in decimal.
pub fn u64_to_string(n: u64) -> (r: String)
    ensures
        r@ == dec_str(n as nat),
    decreases n,
{
    if n < 10 {
        digit_str(n).to_owned()
    } else {
        let mut s = u64_to_string(n / 10);
        s.append(digit_str(n % 10));
        s
    }
}

// ---------------------------------------------------------------------------
// Trimming and lowercasing
// ---------------------------------------------------------------------------

/// ASCII whitespace, the only whitespace that occurs in HTTP header values.
pub open spec fn is_wsp(c: char) -> bool {
    c == ' ' || c == '\t' || c == '\r' || c == '\n'
}

pub open spec fn trim_start_spec(s: Seq<char>) -> Seq<char>
    decreases s.len(),
{
    if s.len() > 0 && is_wsp(s[0]) {
        trim_start_spec(s.skip(1))
    } else {
        s
    }
}

pub open spec fn trim_end_spec(s: Seq<char>) -> Seq<char>
    decreases s.len(),
{
    if s.len() > 0 && is_wsp(s.last()) {
        trim_end_spec(s.drop_last())
    } else {
        s
    }
}

pub open spec fn trim_spec(s: Seq<char>) -> Seq<char> {
    trim_end_spec(trim_start_spec(s))
}

proof fn lemma_trim_start_range(s: Seq<char>, a: int)
    requires
        0 <= a <= s.len(),
        forall|k: int| 0 <= k < a ==> is_wsp(s[k]),
        a < s.len() ==> !is_wsp(s[a]),
    ensures
        trim_start_spec(s) == s.skip(a),
    decreases a,
{
    if a == 0 {
        assert(s.skip(0) =~= s);
    } else {
        assert(is_wsp(s[0]));
        lemma_trim_start_range(s.skip(1), a - 1);
        assert(s.skip(1).skip(a - 1) =~= s.skip(a));
    }
}

proof fn lemma_trim_end_range(s: Seq<char>, b: int)
    requires
        0 <= b <= s.len(),
        forall|k: int| b <= k < s.len() ==> is_wsp(s[k]),
        b > 0 ==> !is_wsp(s[b - 1]),
    ensures
        trim_end_spec(s) == s.take(b),
    decreases s.len() - b,
{
    if b == s.len() {
        assert(s.take(b) =~= s);
    } else {
        assert(is_wsp(s.last()));
        lemma_trim_end_range(s.drop_last(), b);
        assert(s.drop_last().take(b) =~= s.take(b));
    }
}

/// Remove leading and trailing ASCII whitespace.
pub fn trim(s: &str) -> (r: &str)
    ensures
        r@ == trim_spec(s@),
{
    let n = s.unicode_len();
    let mut a: usize = 0;
    while a < n
        invariant
            n == s@.len(),
            a <= n,
            forall|k: int| 0 <= k < a ==> is_wsp(s@[k]),
        ensures
            n == s@.len(),
            a <= n,
            forall|k: int| 0 <= k < a ==> is_wsp(s@[k]),
            a < n ==> !is_wsp(s@[a as int]),
        decreases n - a,
    {
        let c = s.get_char(a);
        if !(c == ' ' || c == '\t' || c == '\r' || c == '\n') {
            break;
        }
        a += 1;
    }
    proof {
        lemma_trim_start_range(s@, a as int);
    }
    if a == n {
        proof {
            assert(s@.skip(a as int) =~= Seq::<char>::empty());
            assert(trim_end_spec(Seq::<char>::empty()) =~= Seq::<char>::empty());
            assert(s@.subrange(a as int, a as int) =~= Seq::<char>::empty());
        }
        return s.substring_char(a, a);
    }
    let mut b: usize = n;
    while b > a
        invariant
            n == s@.len(),
            a < n,
            a <= b <= n,
            forall|k: int| b <= k < n ==> is_wsp(s@[k]),
            !is_wsp(s@[a as int]),
        ensures
            n == s@.len(),
            a <= b <= n,
            forall|k: int| b <= k < n ==> is_wsp(s@[k]),
            !is_wsp(s@[a as int]),
            b > a ==> !is_wsp(s@[b - 1]),
        decreases b,
    {
        let c = s.get_char(b - 1);
        if !(c == ' ' || c == '\t' || c == '\r' || c == '\n') {
            break;
        }
        b -= 1;
    }
    proof {
        let t = s@.skip(a as int);
        assert(b > a) by {
            if b == a {
                assert(is_wsp(s@[a as int]));
            }
        }
        assert(forall|k: int| b - a <= k < t.len() ==> is_wsp(t[k]));
        assert(!is_wsp(t[b - a - 1]));
        lemma_trim_end_range(t, b - a);
        assert(t.take(b - a) =~= s@.subrange(a as int, b as int));
    }
    s.substring_char(a, b)
}

/// ASCII lowercase of one character; other characters are unchanged.
pub open spec fn lower_char_spec(c: char) -> char {
    if 'A' <= c && c <= 'Z' {
        ((c as u8) + 32) as char
    } else {
        c
    }
}

pub open spec fn to_lower_spec(s: Seq<char>) -> Seq<char> {
    s.map_values(|c: char| lower_char_spec(c))
}

fn lower_letter(c: char) -> (r: &'static str)
    requires
        'A' <= c && c <= 'Z',
    ensures
        r@ == seq![lower_char_spec(c)],
{
    let u = c as u32;
    if u == 65 {
        proof {
            reveal_strlit("a");
            assert("a"@ =~= seq!['a']);
        }
        "a"
    } else if u == 66 {
        proof {
            reveal_strlit("b");
            assert("b"@ =~= seq!['b']);
        }
        "b"
    } else if u == 67 {
        proof {
            reveal_strlit("c");
            assert("c"@ =~= seq!['c']);
        }
        "c"
    } else if u == 68 {
        proof {
            reveal_strlit("d");
            assert("d"@ =~= seq!['d']);
        }
        "d"
    } else if u == 69 {
        proof {
            reveal_strlit("e");
            assert("e"@ =~= seq!['e']);
        }
        "e"
    } else if u == 70 {
        proof {
            reveal_strlit("f");
            assert("f"@ =~= seq!['f']);
        }
        "f"
    } else if u == 71 {
        proof {
            reveal_strlit("g");
            assert("g"@ =~= seq!['g']);
        }
        "g"
    } else if u == 72 {
        proof {
            reveal_strlit("h");
            assert("h"@ =~= seq!['h']);
        }
        "h"
    } else if u == 73 {
        proof {
            reveal_strlit("i");
            assert("i"@ =~= seq!['i']);
        }
        "i"
    } else if u == 74 {
        proof {
            reveal_strlit("j");
            assert("j"@ =~= seq!['j']);
        }
        "j"
    } else if u == 75 {
        proof {
            reveal_strlit("k");
            assert("k"@ =~= seq!['k']);
        }
        "k"
    } else if u == 76 {
        proof {
            reveal_strlit("l");
            assert("l"@ =~= seq!['l']);
        }
        "l"
    } else if u == 77 {
        proof {
            reveal_strlit("m");
            assert("m"@ =~= seq!['m']);
        }
        "m"
    } else if u == 78 {
        proof {
            reveal_strlit("n");
            assert("n"@ =~= seq!['n']);
        }
        "n"
    } else if u == 79 {
        proof {
            reveal_strlit("o");
            assert("o"@ =~= seq!['o']);
        }
        "o"
    } else if u == 80 {
        proof {
            reveal_strlit("p");
            assert("p"@ =~= seq!['p']);
        }
        "p"
    } else if u == 81 {
        proof {
            reveal_strlit("q");
            assert("q"@ =~= seq!['q']);
        }
        "q"
    } else if u == 82 {
        proof {
            reveal_strlit("r");
            assert("r"@ =~= seq!['r']);
        }
        "r"
    } else if u == 83 {
        proof {
            reveal_strlit("s");
            assert("s"@ =~= seq!['s']);
        }
        "s"
    } else if u == 84 {
        proof {
            reveal_strlit("t");
            assert("t"@ =~= seq!['t']);
        }
        "t"
    } else if u == 85 {
        proof {
            reveal_strlit("u");
            assert("u"@ =~= seq!['u']);
        }
        "u"
    } else if u == 86 {
        proof {
            reveal_strlit("v");
            assert("v"@ =~= seq!['v']);
        }
        "v"
    } else if u == 87 {
        proof {
            reveal_strlit("w");
            assert("w"@ =~= seq!['w']);
        }
        "w"
    } else if u == 88 {
        proof {
            reveal_strlit("x");
            assert("x"@ =~= seq!['x']);
        }
        "x"
    } else if u == 89 {
        proof {
            reveal_strlit("y");
            assert("y"@ =~= seq!['y']);
        }
        "y"
    } else {
        proof {
            reveal_strlit("z");
            assert("z"@ =~= seq!['z']);
        }
        "z"
    }
}

/// ASCII-lowercase a string: `A`-`Z` become `a`-`z`, all other characters,
/// Unicode included, pass through unchanged.
pub fn to_lowercase_ascii(s: &str) -> (r: String)
    ensures
        r@ == to_lower_spec(s@),
{
    let n = s.unicode_len();
    let mut out = String::new();
    let mut i: usize = 0;
    proof {
        assert(out@ =~= to_lower_spec(s@.take(0)));
    }
    while i < n
        invariant
            n == s@.len(),
            i <= n,
            out@ == to_lower_spec(s@.take(i as int)),
        decreases n - i,
    {
        let c = s.get_char(i);
        if 'A' <= c && c <= 'Z' {
            out.append(lower_letter(c));
        } else {
            out.append(s.substring_char(i, i + 1));
            proof {
                assert(s@.subrange(i as int, i + 1) =~= seq![s@[i as int]]);
            }
        }
        proof {
            assert(to_lower_spec(s@.take(i + 1)) =~= to_lower_spec(s@.take(i as int)) + seq![
                lower_char_spec(s@[i as int]),
            ]);
        }
        i += 1;
    }
    proof {
        assert(s@.take(n as int) =~= s@);
    }
    out
}

} // verus!
