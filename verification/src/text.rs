//! Character-level helpers shared by the grammars of this crate.

use vstd::prelude::*;

verus! {

/// Index of the first occurrence of `c` in `s`, or `s.len()` when `s` does not
/// hold `c`.
pub open spec fn position(s: Seq<char>, c: char) -> int
    decreases s.len(),
{
    if s.len() == 0 || s[0] == c {
        0
    } else {
        1 + position(s.drop_first(), c)
    }
}

/// The pieces of `s` between the occurrences of `c`, in order. A sequence
/// without `c` is its own single piece; two adjacent occurrences enclose an
/// empty piece.
pub open spec fn split(s: Seq<char>, c: char) -> Seq<Seq<char>>
    decreases s.len(),
{
    let i = position(s, c);
    if 0 <= i < s.len() {
        seq![s.subrange(0, i)] + split(s.subrange(i + 1, s.len() as int), c)
    } else {
        seq![s]
    }
}

/// Length of the run of `c` that `s` starts with.
pub open spec fn run(s: Seq<char>, c: char) -> int
    decreases s.len(),
{
    if s.len() > 0 && s[0] == c {
        1 + run(s.drop_first(), c)
    } else {
        0
    }
}

/// A split has at least one piece.
pub proof fn lemma_split_len(s: Seq<char>, c: char)
    ensures
        split(s, c).len() >= 1,
{
}

/// `position` stays within `s`, nothing before it is `c`, and it points at `c`
/// unless it reached the end.
pub proof fn lemma_position_bounds(s: Seq<char>, c: char)
    ensures
        0 <= position(s, c) <= s.len(),
        forall|j: int| 0 <= j < position(s, c) ==> s[j] != c,
        position(s, c) < s.len() ==> s[position(s, c)] == c,
    decreases s.len(),
{
    if s.len() == 0 || s[0] == c {
    } else {
        let t = s.drop_first();
        lemma_position_bounds(t, c);
        assert forall|j: int| 0 <= j < position(s, c) implies s[j] != c by {
            if j > 0 {
                assert(s[j] == t[j - 1]);
            }
        }
    }
}

/// An index with the three properties of `lemma_position_bounds` is the
/// position.
pub proof fn lemma_position_is(s: Seq<char>, c: char, k: int)
    requires
        0 <= k <= s.len(),
        forall|j: int| 0 <= j < k ==> s[j] != c,
        k < s.len() ==> s[k] == c,
    ensures
        position(s, c) == k,
    decreases k,
{
    if k > 0 {
        let t = s.drop_first();
        lemma_position_is(t, c, k - 1);
    }
}

/// An index is the length of the run when everything before it is `c` and
/// what it points at is not.
pub proof fn lemma_run_is(s: Seq<char>, c: char, k: int)
    requires
        0 <= k <= s.len(),
        forall|j: int| 0 <= j < k ==> s[j] == c,
        k < s.len() ==> s[k] != c,
    ensures
        run(s, c) == k,
    decreases k,
{
    if k > 0 {
        let t = s.drop_first();
        lemma_run_is(t, c, k - 1);
    }
}

/// The characters of `s`, one by one.
pub fn chars_of(s: &str) -> (v: Vec<char>)
    ensures
        v@ == s@,
{
    let mut v: Vec<char> = Vec::new();
    for c in it: s.chars()
        invariant
            v@ == it.seq().take(it.index() as int),
            it.seq() == s@,
    {
        v.push(c);
    }
    v
}

/// Scans `v` from `from` up to the first `c`, or to the end.
pub(crate) fn find(v: &Vec<char>, from: usize, c: char) -> (to: usize)
    requires
        from <= v.len(),
    ensures
        from <= to <= v.len(),
        to - from == position(v@.subrange(from as int, v.len() as int), c),
{
    let n: usize = v.len();
    let mut to: usize = from;
    while to < n && v[to] != c
        invariant
            n == v.len(),
            from <= to <= n,
            forall|j: int| from <= j < to ==> v@[j] != c,
        decreases n - to,
    {
        to = to + 1;
    }
    proof {
        lemma_position_is(v@.subrange(from as int, n as int), c, to - from);
    }
    to
}

/// Length of the run of `c` at the front of `v`.
pub(crate) fn skip(v: &Vec<char>, c: char) -> (to: usize)
    ensures
        to == run(v@, c),
        to <= v.len(),
{
    let n: usize = v.len();
    let mut to: usize = 0;
    while to < n && v[to] == c
        invariant
            n == v.len(),
            to <= n,
            forall|j: int| 0 <= j < to ==> v@[j] == c,
        decreases n - to,
    {
        to = to + 1;
    }
    proof {
        lemma_run_is(v@, c, to as int);
    }
    to
}

/// Whether `w` stands in `v` at index `at`.
pub(crate) fn holds_at(v: &Vec<char>, at: usize, w: &Vec<char>) -> (r: bool)
    requires
        at <= v.len(),
    ensures
        r == (at + w.len() <= v.len() && v@.subrange(at as int, at + w.len()) =~= w@),
{
    let m: usize = w.len();
    if m > v.len() - at {
        return false;
    }
    let mut i: usize = 0;
    while i < m
        invariant
            m == w.len(),
            at + m <= v.len(),
            i <= m,
            forall|j: int| 0 <= j < i ==> v@[at + j] == w@[j],
        decreases m - i,
    {
        if v[at + i] != w[i] {
            return false;
        }
        i = i + 1;
    }
    true
}

/// Whether `a` and `b` hold the same characters.
pub fn same(a: &str, b: &str) -> (r: bool)
    ensures
        r == (a@ == b@),
{
    let x = chars_of(a);
    let y = chars_of(b);
    let r = x.len() == y.len() && holds_at(&x, 0, &y);
    proof {
        if r {
            assert(x@.subrange(0, y@.len() as int) =~= x@);
        }
    }
    r
}

} // verus!
