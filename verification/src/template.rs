//! Filling text templates: every occurrence of a placeholder is replaced by a
//! text, scanning from left to right, and a text may be repeated a number of times.
use vstd::prelude::*;
use crate::text::{push_char, starts_with};

verus! {

/// `s` with every occurrence of `p` replaced by `w`, scanning from the left and
/// resuming after each replaced occurrence (occurrences do not overlap).
pub open spec fn replaced(s: Seq<char>, p: Seq<char>, w: Seq<char>) -> Seq<char>
    decreases s.len(),
{
    if p.len() == 0 || s.len() == 0 {
        s
    } else if starts_with(s, p) {
        w + replaced(s.subrange(p.len() as int, s.len() as int), p, w)
    } else {
        seq![s[0]] + replaced(s.subrange(1, s.len() as int), p, w)
    }
}

/// `s` written `n` times in a row.
pub open spec fn repeated(s: Seq<char>, n: nat) -> Seq<char>
    decreases n,
{
    if n == 0 {
        Seq::empty()
    } else {
        repeated(s, (n - 1) as nat) + s
    }
}

/// Text that holds no occurrence of `p`.
pub open spec fn free_of(s: Seq<char>, p: Seq<char>) -> bool {
    forall|i: int| 0 <= i <= s.len() - p.len() ==> !#[trigger] starts_with(s.subrange(i, s.len() as int), p)
}

/// Whether `p` occurs in `s` at position `i`.
fn occurs_at(s: &str, n: usize, i: usize, p: &str, m: usize) -> (r: bool)
    requires
        n == s@.len(),
        m == p@.len(),
        i <= n,
    ensures
        r == starts_with(s@.subrange(i as int, n as int), p@),
{
    if m > n - i {
        return false;
    }
    let mut k: usize = 0;
    while k < m
        invariant
            k <= m,
            i + m <= n,
            n == s@.len(),
            m == p@.len(),
            forall|j: int| 0 <= j < k ==> s@[i + j] == p@[j],
        decreases m - k,
    {
        if s.get_char(i + k) != p.get_char(k) {
            assert(s@.subrange(i as int, n as int).subrange(0, m as int)[k as int] != p@[k as int]);
            return false;
        }
        k = k + 1;
    }
    assert(s@.subrange(i as int, n as int).subrange(0, m as int) =~= p@);
    true
}

/// `s.replace(p, w)`: every occurrence of the (non-empty) placeholder `p` in `s`,
/// from left to right, replaced by `w`.
pub fn replace_str(s: &str, p: &str, w: &str) -> (r: String)
    requires
        p@.len() > 0,
    ensures
        r@ == replaced(s@, p@, w@),
{
    let n = s.unicode_len();
    let m = p.unicode_len();
    let mut out = String::new();
    let mut i: usize = 0;
    assert(s@.subrange(0, n as int) =~= s@);
    while i < n
        invariant
            i <= n,
            n == s@.len(),
            m == p@.len(),
            m > 0,
            out@ + replaced(s@.subrange(i as int, n as int), p@, w@) == replaced(s@, p@, w@),
        decreases n - i,
    {
        let ghost rest = s@.subrange(i as int, n as int);
        if occurs_at(s, n, i, p, m) {
            assert(rest.subrange(m as int, rest.len() as int) =~= s@.subrange((i + m) as int, n as int));
            assert(replaced(rest, p@, w@) == w@ + replaced(s@.subrange((i + m) as int, n as int), p@, w@));
            out.append(w);
            assert(out@ + replaced(s@.subrange((i + m) as int, n as int), p@, w@) =~= replaced(s@, p@, w@));
            i = i + m;
        } else {
            let c = s.get_char(i);
            assert(rest.subrange(1, rest.len() as int) =~= s@.subrange((i + 1) as int, n as int));
            assert(rest[0] == c);
            push_char(&mut out, c);
            assert(out@ + replaced(s@.subrange((i + 1) as int, n as int), p@, w@) =~= replaced(s@, p@, w@));
            i = i + 1;
        }
    }
    assert(s@.subrange(n as int, n as int) =~= Seq::<char>::empty());
    assert(out@ + Seq::<char>::empty() =~= out@);
    out
}

/// `s.repeat(n)`.
pub fn repeat_str(s: &str, n: usize) -> (r: String)
    ensures
        r@ == repeated(s@, n as nat),
{
    let mut out = String::new();
    let mut k: usize = 0;
    while k < n
        invariant
            k <= n,
            out@ == repeated(s@, k as nat),
        decreases n - k,
    {
        out.append(s);
        k = k + 1;
    }
    out
}

/// Replacing a placeholder by itself leaves the text as it is.
pub proof fn lemma_replaced_same(s: Seq<char>, p: Seq<char>)
    ensures
        replaced(s, p, p) == s,
    decreases s.len(),
{
    if p.len() > 0 && s.len() > 0 {
        if starts_with(s, p) {
            let t = s.subrange(p.len() as int, s.len() as int);
            lemma_replaced_same(t, p);
            assert(p + t =~= s);
        } else {
            let t = s.subrange(1, s.len() as int);
            lemma_replaced_same(t, p);
            assert(seq![s[0]] + t =~= s);
        }
    }
}

/// Replacing a placeholder that does not occur leaves the text as it is.
pub proof fn lemma_replaced_absent(s: Seq<char>, p: Seq<char>, w: Seq<char>)
    requires
        p.len() > 0,
        free_of(s, p),
    ensures
        replaced(s, p, w) == s,
    decreases s.len(),
{
    if s.len() > 0 {
        let t = s.subrange(1, s.len() as int);
        if p.len() <= s.len() {
            assert(s.subrange(0, s.len() as int) =~= s);
            assert(!starts_with(s.subrange(0, s.len() as int), p));
        }
        assert forall|i: int| 0 <= i <= t.len() - p.len() implies !#[trigger] starts_with(t.subrange(i, t.len() as int), p) by {
            assert(t.subrange(i, t.len() as int) =~= s.subrange(i + 1, s.len() as int));
            assert(!starts_with(s.subrange(i + 1, s.len() as int), p));
        }
        lemma_replaced_absent(t, p, w);
        assert(seq![s[0]] + t =~= s);
    }
}

} // verus!
