//! Character-level text operations: conversion between strings and character
//! vectors, substring search, and splicing.
//!
//! Strings are modelled by their view, a `Seq<char>`; every contract here is
//! stated over that model.

use vstd::prelude::*;

verus! {

/// `String::push` appends exactly one character to the end of the string.
pub assume_specification[ String::push ](s: &mut String, ch: char)
    ensures
        final(s)@ == old(s)@.push(ch),
;

/// `pat` occurs in `hay` starting at index `i`.
pub open spec fn occurs_at(hay: Seq<char>, pat: Seq<char>, i: int) -> bool {
    &&& 0 <= i
    &&& i + pat.len() <= hay.len()
    &&& hay.subrange(i, i + pat.len()) == pat
}

/// `pat` occurs somewhere in `hay`.
pub open spec fn occurs(hay: Seq<char>, pat: Seq<char>) -> bool {
    exists|i: int| occurs_at(hay, pat, i)
}

/// `i` is the index of the leftmost occurrence of `pat` in `hay`.
pub open spec fn leftmost_at(hay: Seq<char>, pat: Seq<char>, i: int) -> bool {
    &&& occurs_at(hay, pat, i)
    &&& forall|k: int| 0 <= k < i ==> !occurs_at(hay, pat, k)
}

/// The index of the leftmost occurrence of `pat` in `hay`, if there is one.
pub open spec fn leftmost(hay: Seq<char>, pat: Seq<char>) -> Option<int> {
    if occurs(hay, pat) {
        Some(choose|i: int| leftmost_at(hay, pat, i))
    } else {
        None
    }
}

/// `hay` with the `len` characters starting at `at` replaced by `rep`.
pub open spec fn splice(hay: Seq<char>, at: int, len: int, rep: Seq<char>) -> Seq<char> {
    hay.subrange(0, at) + rep + hay.subrange(at + len, hay.len() as int)
}

/// A leftmost occurrence is the one that `leftmost` names.
pub proof fn lemma_leftmost_unique(hay: Seq<char>, pat: Seq<char>, i: int)
    requires
        leftmost_at(hay, pat, i),
    ensures
        leftmost(hay, pat) == Some(i),
{
    assert(occurs(hay, pat));
    let j = choose|j: int| leftmost_at(hay, pat, j);
    assert(leftmost_at(hay, pat, j));
    if j < i {
        assert(!occurs_at(hay, pat, j));
    } else if i < j {
        assert(!occurs_at(hay, pat, i));
    }
}

/// The characters of `s`, in order.
pub fn chars_of(s: &str) -> (v: Vec<char>)
    ensures
        v@ == s@,
{
    let mut v: Vec<char> = Vec::new();
    let chars = s.chars();
    proof {
        vstd::string::axiom_spec_iter(s);
    }
    for c in it: chars
        invariant
            it.seq() == s@,
            v@ == s@.subrange(0, it.index()),
    {
        v.push(c);
    }
    v
}

/// The string made of the characters of `v`, in order.
pub fn string_of(v: &[char]) -> (s: String)
    ensures
        s@ == v@,
{
    let mut s = String::new();
    let mut i: usize = 0;
    while i < v.len()
        invariant
            i <= v.len(),
            s@ == v@.subrange(0, i as int),
        decreases v.len() - i,
    {
        s.push(v[i]);
        i += 1;
    }
    s
}

/// Whether two character slices hold the same text.
pub fn same_text(a: &[char], b: &[char]) -> (r: bool)
    ensures
        r == (a@ == b@),
{
    if a.len() != b.len() {
        return false;
    }
    let mut i: usize = 0;
    while i < a.len()
        invariant
            i <= a.len(),
            a.len() == b.len(),
            a@.subrange(0, i as int) == b@.subrange(0, i as int),
        decreases a.len() - i,
    {
        if a[i] != b[i] {
            return false;
        }
        assert(a@.subrange(0, i + 1) == a@.subrange(0, i as int).push(a@[i as int]));
        assert(b@.subrange(0, i + 1) == b@.subrange(0, i as int).push(b@[i as int]));
        i += 1;
    }
    assert(a@ == a@.subrange(0, a.len() as int));
    assert(b@ == b@.subrange(0, b.len() as int));
    true
}

/// Whether `pat` occurs in `hay` starting at index `i`.
pub fn occurs_here(hay: &[char], pat: &[char], i: usize) -> (r: bool)
    ensures
        r == occurs_at(hay@, pat@, i as int),
{
    if i > hay.len() || pat.len() > hay.len() - i {
        return false;
    }
    let ghost window = hay@.subrange(i as int, i + pat.len());
    let mut k: usize = 0;
    while k < pat.len()
        invariant
            k <= pat.len(),
            i + pat.len() <= hay.len(),
            window == hay@.subrange(i as int, i + pat.len()),
            window.subrange(0, k as int) == pat@.subrange(0, k as int),
        decreases pat.len() - k,
    {
        if hay[i + k] != pat[k] {
            assert(window[k as int] != pat@[k as int]);
            return false;
        }
        assert(window.subrange(0, k + 1) == window.subrange(0, k as int).push(window[k as int]));
        assert(pat@.subrange(0, k + 1) == pat@.subrange(0, k as int).push(pat@[k as int]));
        k += 1;
    }
    assert(window == window.subrange(0, pat.len() as int));
    assert(pat@ == pat@.subrange(0, pat.len() as int));
    true
}

/// The index of the leftmost occurrence of `pat` in `hay`, if there is one.
pub fn find(hay: &[char], pat: &[char]) -> (r: Option<usize>)
    ensures
        match r {
            Some(i) => leftmost(hay@, pat@) == Some(i as int) && leftmost_at(hay@, pat@, i as int),
            None => leftmost(hay@, pat@) is None && !occurs(hay@, pat@),
        },
{
    if pat.len() > hay.len() {
        return None;
    }
    let last: usize = hay.len() - pat.len();
    let mut i: usize = 0;
    loop
        invariant
            i <= last,
            last == hay.len() - pat.len(),
            forall|k: int| 0 <= k < i ==> !occurs_at(hay@, pat@, k),
        decreases last - i,
    {
        if occurs_here(hay, pat, i) {
            proof {
                lemma_leftmost_unique(hay@, pat@, i as int);
            }
            return Some(i);
        }
        if i == last {
            return None;
        }
        i += 1;
    }
}

/// Whether the character `c` occurs in `hay`.
pub fn has_char(hay: &[char], c: char) -> (r: bool)
    ensures
        r == hay@.contains(c),
{
    let mut i: usize = 0;
    while i < hay.len()
        invariant
            i <= hay.len(),
            forall|k: int| 0 <= k < i ==> hay@[k] != c,
        decreases hay.len() - i,
    {
        if hay[i] == c {
            return true;
        }
        i += 1;
    }
    false
}

/// `hay` with the `len` characters starting at `at` replaced by `rep`.
pub fn spliced(hay: &[char], at: usize, len: usize, rep: &[char]) -> (r: Vec<char>)
    requires
        at + len <= hay.len(),
    ensures
        r@ == splice(hay@, at as int, len as int, rep@),
{
    let mut out: Vec<char> = Vec::new();
    let mut i: usize = 0;
    while i < at
        invariant
            i <= at <= hay.len(),
            out@ == hay@.subrange(0, i as int),
        decreases at - i,
    {
        out.push(hay[i]);
        i += 1;
    }
    let mut j: usize = 0;
    while j < rep.len()
        invariant
            j <= rep.len(),
            out@ == hay@.subrange(0, at as int) + rep@.subrange(0, j as int),
        decreases rep.len() - j,
    {
        out.push(rep[j]);
        j += 1;
    }
    assert(rep@ == rep@.subrange(0, rep.len() as int));
    let mut k: usize = at + len;
    while k < hay.len()
        invariant
            at + len <= k <= hay.len(),
            out@ == hay@.subrange(0, at as int) + rep@ + hay@.subrange(at + len, k as int),
        decreases hay.len() - k,
    {
        out.push(hay[k]);
        k += 1;
    }
    out
}


/// Among the occurrences of `pat` in `hay` there is a leftmost one.
proof fn lemma_least_occurrence(hay: Seq<char>, pat: Seq<char>, w: int)
    requires
        occurs_at(hay, pat, w),
    ensures
        exists|i: int| leftmost_at(hay, pat, i),
    decreases w,
{
    if exists|k: int| 0 <= k < w && occurs_at(hay, pat, k) {
        let k = choose|k: int| 0 <= k < w && occurs_at(hay, pat, k);
        lemma_least_occurrence(hay, pat, k);
    } else {
        assert(leftmost_at(hay, pat, w));
    }
}

/// Where `pat` occurs in `hay`, `leftmost` names an occurrence, and no
/// occurrence starts before it.
pub proof fn lemma_leftmost_occurs(hay: Seq<char>, pat: Seq<char>)
    requires
        occurs(hay, pat),
    ensures
        leftmost(hay, pat) is Some,
        leftmost_at(hay, pat, leftmost(hay, pat).unwrap()),
{
    let w = choose|w: int| occurs_at(hay, pat, w);
    lemma_least_occurrence(hay, pat, w);
}

/// A splice holds its replacement at the place of the splice.
pub proof fn lemma_splice_holds_replacement(hay: Seq<char>, at: int, len: int, rep: Seq<char>)
    requires
        0 <= at,
        0 <= len,
        at + len <= hay.len(),
    ensures
        occurs_at(splice(hay, at, len, rep), rep, at),
        splice(hay, at, len, rep).len() == hay.len() - len + rep.len(),
{
    let out = splice(hay, at, len, rep);
    assert(out.subrange(at, at + rep.len()) =~= rep);
}

/// What occurs before the place of a splice occurs there afterwards too.
pub proof fn lemma_splice_keeps_before(
    hay: Seq<char>,
    at: int,
    len: int,
    rep: Seq<char>,
    pat: Seq<char>,
    p: int,
)
    requires
        0 <= len,
        at + len <= hay.len(),
        occurs_at(hay, pat, p),
        p + pat.len() <= at,
    ensures
        occurs_at(splice(hay, at, len, rep), pat, p),
{
    let out = splice(hay, at, len, rep);
    assert(out.subrange(p, p + pat.len()) =~= hay.subrange(p, p + pat.len()));
}

/// What occurs behind the place of a splice occurs afterwards too, moved by
/// the difference in length between the replacement and what it replaced.
pub proof fn lemma_splice_moves_behind(
    hay: Seq<char>,
    at: int,
    len: int,
    rep: Seq<char>,
    pat: Seq<char>,
    p: int,
)
    requires
        0 <= at,
        0 <= len,
        at + len <= hay.len(),
        occurs_at(hay, pat, p),
        at + len <= p,
    ensures
        occurs_at(splice(hay, at, len, rep), pat, p - len + rep.len()),
{
    let out = splice(hay, at, len, rep);
    let q = p - len + rep.len();
    assert(out.subrange(q, q + pat.len()) =~= hay.subrange(p, p + pat.len()));
}

/// What occurs in a part of a text occurs in the text.
pub proof fn lemma_occurs_within(hay: Seq<char>, mid: Seq<char>, pat: Seq<char>, p: int, q: int)
    requires
        occurs_at(hay, mid, p),
        occurs_at(mid, pat, q),
    ensures
        occurs_at(hay, pat, p + q),
{
    let window = hay.subrange(p, p + mid.len());
    assert(hay.subrange(p + q, p + q + pat.len()) =~= window.subrange(q, q + pat.len()));
}

} // verus!
