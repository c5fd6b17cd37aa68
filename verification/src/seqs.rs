//! Ordered, duplicate-free sequences: the order laws they rest on and the
//! sorting routines built on them.
use vstd::prelude::*;

verus! {

/// `s` is strictly increasing.
pub open spec fn strictly_sorted(s: Seq<int>) -> bool {
    forall|i: int, j: int| 0 <= i < j < s.len() ==> s[i] < s[j]
}

/// The elements of an `i32` sequence, as integers.
pub open spec fn ints_i32(s: Seq<i32>) -> Seq<int> {
    s.map_values(|x: i32| x as int)
}

/// The elements of a `usize` sequence, as integers.
pub open spec fn ints_usize(s: Seq<usize>) -> Seq<int> {
    s.map_values(|x: usize| x as int)
}

/// The strictly increasing sequence that holds exactly the elements of `s`.
pub open spec fn sorted_set(s: Seq<int>) -> Seq<int> {
    choose|r: Seq<int>| strictly_sorted(r) && r.to_set() == s.to_set()
}

/// Two strictly increasing sequences with the same elements are equal.
pub proof fn lemma_sorted_set_unique(a: Seq<int>, b: Seq<int>)
    requires
        strictly_sorted(a),
        strictly_sorted(b),
        a.to_set() == b.to_set(),
    ensures
        a == b,
    decreases a.len(),
{
    if a.len() == 0 {
        if b.len() > 0 {
            assert(b.to_set().contains(b[0]));
            assert(!a.to_set().contains(b[0]));
        }
        assert(a =~= b);
    } else if b.len() == 0 {
        assert(a.to_set().contains(a[0]));
        assert(!b.to_set().contains(a[0]));
    } else {
        assert(a.to_set().contains(a[0]));
        assert(b.to_set().contains(a[0]));
        let k = choose|k: int| 0 <= k < b.len() && b[k] == a[0];
        assert(b.to_set().contains(b[0]));
        let m = choose|m: int| 0 <= m < a.len() && a[m] == b[0];
        assert(b[0] <= b[k]);
        assert(a[0] <= a[m]);
        assert(a[0] == b[0]);
        let a1 = a.drop_first();
        let b1 = b.drop_first();
        assert forall|x: int| a1.to_set().contains(x) implies b1.to_set().contains(x) by {
            let i = choose|i: int| 0 <= i < a1.len() && a1[i] == x;
            assert(a[i + 1] == x);
            assert(a.to_set().contains(x));
            let j = choose|j: int| 0 <= j < b.len() && b[j] == x;
            assert(a[0] < a[i + 1]);
            assert(j != 0);
            assert(b1[j - 1] == x);
        }
        assert forall|x: int| b1.to_set().contains(x) implies a1.to_set().contains(x) by {
            let i = choose|i: int| 0 <= i < b1.len() && b1[i] == x;
            assert(b[i + 1] == x);
            assert(b.to_set().contains(x));
            let j = choose|j: int| 0 <= j < a.len() && a[j] == x;
            assert(b[0] < b[i + 1]);
            assert(j != 0);
            assert(a1[j - 1] == x);
        }
        assert(a1.to_set() =~= b1.to_set());
        lemma_sorted_set_unique(a1, b1);
        assert(a =~= seq![a[0]] + a1);
        assert(b =~= seq![b[0]] + b1);
    }
}

/// Every sequence has a sorted, duplicate-free arrangement of its elements, and
/// `sorted_set` is that arrangement.
pub proof fn lemma_sorted_set_is(s: Seq<int>, r: Seq<int>)
    requires
        strictly_sorted(r),
        r.to_set() == s.to_set(),
    ensures
        sorted_set(s) == r,
{
    assert(exists|q: Seq<int>| strictly_sorted(q) && q.to_set() == s.to_set());
    let q = sorted_set(s);
    lemma_sorted_set_unique(q, r);
}

/// Inserts `x` into a strictly increasing sequence, keeping it strictly increasing.
proof fn lemma_insert_sorted(r: Seq<int>, x: int) -> (q: Seq<int>)
    requires
        strictly_sorted(r),
    ensures
        strictly_sorted(q),
        q.to_set() == r.to_set().insert(x),
    decreases r.len(),
{
    if r.len() == 0 {
        let q = seq![x];
        assert(q.to_set() =~= r.to_set().insert(x)) by {
            assert(q.to_set().contains(q[0]));
        }
        q
    } else if x < r[0] {
        let q = seq![x] + r;
        assert forall|i: int, j: int| 0 <= i < j < q.len() implies q[i] < q[j] by {
            if i > 0 { assert(q[i] == r[i - 1] && q[j] == r[j - 1]); } else {
                assert(q[j] == r[j - 1]);
                if j - 1 > 0 { assert(r[0] < r[j - 1]); }
            }
        }
        assert(q.to_set() =~= r.to_set().insert(x)) by {
            assert forall|y: int| q.to_set().contains(y) <==> r.to_set().insert(x).contains(y) by {
                if q.to_set().contains(y) {
                    let k = choose|k: int| 0 <= k < q.len() && q[k] == y;
                    if k > 0 { assert(r[k - 1] == y); }
                }
                if r.to_set().contains(y) {
                    let k = choose|k: int| 0 <= k < r.len() && r[k] == y;
                    assert(q[k + 1] == y);
                }
                if y == x { assert(q[0] == y); }
            }
        }
        q
    } else if x == r[0] {
        assert(r.to_set().contains(r[0]));
        assert(r.to_set() =~= r.to_set().insert(x));
        r
    } else {
        let t = lemma_insert_sorted(r.drop_first(), x);
        let q = seq![r[0]] + t;
        assert forall|j: int| 0 <= j < t.len() implies r[0] < t[j] by {
            assert(t.to_set().contains(t[j]));
            if t[j] != x {
                assert(r.drop_first().to_set().contains(t[j]));
                let k = choose|k: int| 0 <= k < r.drop_first().len() && r.drop_first()[k] == t[j];
                assert(r[k + 1] == t[j]);
            }
        }
        assert forall|i: int, j: int| 0 <= i < j < q.len() implies q[i] < q[j] by {
            if i > 0 { assert(q[i] == t[i - 1] && q[j] == t[j - 1]); } else { assert(q[j] == t[j - 1]); }
        }
        assert(q.to_set() =~= r.to_set().insert(x)) by {
            assert forall|y: int| q.to_set().contains(y) <==> r.to_set().insert(x).contains(y) by {
                if q.to_set().contains(y) {
                    let k = choose|k: int| 0 <= k < q.len() && q[k] == y;
                    if k > 0 {
                        assert(t[k - 1] == y);
                        assert(t.to_set().contains(y));
                        if y != x {
                            assert(r.drop_first().to_set().contains(y));
                            let m = choose|m: int| 0 <= m < r.drop_first().len() && r.drop_first()[m] == y;
                            assert(r[m + 1] == y);
                        }
                    } else {
                        assert(r[0] == y);
                    }
                }
                if r.to_set().contains(y) {
                    let k = choose|k: int| 0 <= k < r.len() && r[k] == y;
                    if k == 0 { assert(q[0] == y); } else {
                        assert(r.drop_first()[k - 1] == y);
                        assert(r.drop_first().to_set().contains(y));
                        assert(t.to_set().contains(y));
                        let m = choose|m: int| 0 <= m < t.len() && t[m] == y;
                        assert(q[m + 1] == y);
                    }
                }
                if y == x {
                    assert(t.to_set().contains(x));
                    let m = choose|m: int| 0 <= m < t.len() && t[m] == x;
                    assert(q[m + 1] == y);
                }
            }
        }
        q
    }
}

proof fn lemma_sorted_arrangement(s: Seq<int>) -> (r: Seq<int>)
    ensures
        strictly_sorted(r),
        r.to_set() == s.to_set(),
    decreases s.len(),
{
    if s.len() == 0 {
        let r = Seq::<int>::empty();
        assert(r.to_set() =~= s.to_set());
        r
    } else {
        let r0 = lemma_sorted_arrangement(s.drop_last());
        let r = lemma_insert_sorted(r0, s.last());
        assert(s =~= s.drop_last().push(s.last()));
        lemma_to_set_push(s.drop_last(), s.last());
        r
    }
}

/// `sorted_set(s)` is strictly increasing and holds exactly the elements of `s`.
pub proof fn lemma_sorted_set_props(s: Seq<int>)
    ensures
        strictly_sorted(sorted_set(s)),
        sorted_set(s).to_set() == s.to_set(),
{
    let r = lemma_sorted_arrangement(s);
    lemma_sorted_set_is(s, r);
}

/// `sorted_set_i32(s)` is strictly increasing and holds exactly the elements of `s`.
pub proof fn lemma_sorted_set_i32_props(s: Seq<i32>)
    ensures
        ints_i32(sorted_set_i32(s)) == sorted_set(ints_i32(s)),
        strictly_sorted(ints_i32(sorted_set_i32(s))),
        ints_i32(sorted_set_i32(s)).to_set() == ints_i32(s).to_set(),
{
    let r = sorted_set(ints_i32(s));
    lemma_sorted_set_props(ints_i32(s));
    assert forall|k: int| 0 <= k < r.len() implies i32::MIN <= #[trigger] r[k] <= i32::MAX by {
        assert(r.to_set().contains(r[k]));
        assert(ints_i32(s).to_set().contains(r[k]));
        let m = choose|m: int| 0 <= m < ints_i32(s).len() && ints_i32(s)[m] == r[k];
        assert(ints_i32(s)[m] == s[m] as int);
    }
    assert(ints_i32(sorted_set_i32(s)) =~= r);
}

/// The strictly increasing sequence of the distinct elements of an `i32` sequence.
pub open spec fn sorted_set_i32(s: Seq<i32>) -> Seq<i32> {
    sorted_set(ints_i32(s)).map_values(|x: int| x as i32)
}

/// Reading an `i32` sequence as integers and back gives it unchanged.
pub proof fn lemma_ints_i32_roundtrip(s: Seq<i32>)
    ensures
        ints_i32(s).map_values(|x: int| x as i32) == s,
{
    assert(ints_i32(s).map_values(|x: int| x as i32) =~= s);
}

/// Inserts `x` into the strictly increasing `r` unless present.
fn insert_sorted_i32(r: &mut Vec<i32>, x: i32)
    requires
        strictly_sorted(ints_i32(old(r)@)),
    ensures
        strictly_sorted(ints_i32(final(r)@)),
        ints_i32(final(r)@).to_set() == ints_i32(old(r)@).to_set().insert(x as int),
{
    let n = r.len();
    let mut pos: usize = 0;
    while pos < n && r[pos] < x
        invariant
            pos <= n,
            n == r@.len(),
            forall|j: int| 0 <= j < pos ==> r@[j] < x,
        decreases n - pos,
    {
        pos = pos + 1;
    }
    let ghost old_r = r@;
    if pos < n && r[pos] == x {
        assert(ints_i32(r@).to_set().contains(x as int)) by {
            assert(ints_i32(r@)[pos as int] == x as int);
        }
        assert(ints_i32(r@).to_set() =~= ints_i32(r@).to_set().insert(x as int));
        return;
    }
    r.insert(pos, x);
    let ghost a = ints_i32(old_r);
    let ghost b = ints_i32(r@);
    assert(b =~= a.insert(pos as int, x as int));
    assert forall|i: int, j: int| 0 <= i < j < b.len() implies b[i] < b[j] by {
        if j < pos {
        } else if j == pos {
        } else if i < pos {
            assert(old_r[j - 1] > x) by {
                assert(old_r[pos as int] >= x);
                if j - 1 > pos { assert(a[pos as int] < a[j - 1]); }
            }
        } else if i == pos {
            assert(old_r[pos as int] >= x);
            assert(old_r[pos as int] != x);
            if j - 1 > pos { assert(a[pos as int] < a[j - 1]); }
        } else {
            assert(a[i - 1] < a[j - 1]);
        }
    }
    assert forall|y: int| b.to_set().contains(y) <==> a.to_set().insert(x as int).contains(y) by {
        if b.to_set().contains(y) {
            let k = choose|k: int| 0 <= k < b.len() && b[k] == y;
            if k < pos { assert(a[k] == y); } else if k > pos { assert(a[k - 1] == y); }
        }
        if a.to_set().contains(y) {
            let k = choose|k: int| 0 <= k < a.len() && a[k] == y;
            if k < pos { assert(b[k] == y); } else { assert(b[k + 1] == y); }
        }
        if y == x { assert(b[pos as int] == y); }
    }
    assert(b.to_set() =~= a.to_set().insert(x as int));
}

/// Sorts `v` and removes duplicates (`sort` followed by `dedup`).
pub fn sort_dedup_i32(v: &Vec<i32>) -> (r: Vec<i32>)
    ensures
        strictly_sorted(ints_i32(r@)),
        ints_i32(r@).to_set() == ints_i32(v@).to_set(),
        ints_i32(r@) == sorted_set(ints_i32(v@)),
        r@ == sorted_set_i32(v@),
{
    let mut r: Vec<i32> = Vec::new();
    let n = v.len();
    let mut i: usize = 0;
    assert(ints_i32(v@.subrange(0, 0)).to_set() =~= Set::empty());
    assert(ints_i32(r@).to_set() =~= Set::empty());
    while i < n
        invariant
            i <= n,
            n == v@.len(),
            strictly_sorted(ints_i32(r@)),
            ints_i32(r@).to_set() == ints_i32(v@.subrange(0, i as int)).to_set(),
        decreases n - i,
    {
        insert_sorted_i32(&mut r, v[i]);
        let ghost p = ints_i32(v@.subrange(0, i as int));
        let ghost q = ints_i32(v@.subrange(0, (i + 1) as int));
        assert(q =~= p.push(v@[i as int] as int));
        assert(q.to_set() =~= p.to_set().insert(v@[i as int] as int)) by {
            assert forall|y: int| q.to_set().contains(y) <==> p.to_set().insert(v@[i as int] as int).contains(y) by {
                if q.to_set().contains(y) {
                    let k = choose|k: int| 0 <= k < q.len() && q[k] == y;
                    if k < p.len() { assert(p[k] == y); }
                }
                if p.to_set().contains(y) {
                    let k = choose|k: int| 0 <= k < p.len() && p[k] == y;
                    assert(q[k] == y);
                }
                if y == v@[i as int] as int { assert(q[i as int] == y); }
            }
        }
        i = i + 1;
    }
    assert(v@.subrange(0, n as int) =~= v@);
    proof {
        lemma_sorted_set_is(ints_i32(v@), ints_i32(r@));
        lemma_ints_i32_roundtrip(r@);
    }
    r
}


/// The strictly increasing sequence of the distinct elements of a `usize` sequence.
pub open spec fn sorted_set_usize(s: Seq<usize>) -> Seq<usize> {
    sorted_set(ints_usize(s)).map_values(|x: int| x as usize)
}

/// Reading a `usize` sequence as integers and back gives it unchanged.
pub proof fn lemma_ints_usize_roundtrip(s: Seq<usize>)
    ensures
        ints_usize(s).map_values(|x: int| x as usize) == s,
{
    assert(ints_usize(s).map_values(|x: int| x as usize) =~= s);
}

/// Inserts `x` into the strictly increasing `r` unless present.
fn insert_sorted_usize(r: &mut Vec<usize>, x: usize)
    requires
        strictly_sorted(ints_usize(old(r)@)),
    ensures
        strictly_sorted(ints_usize(final(r)@)),
        ints_usize(final(r)@).to_set() == ints_usize(old(r)@).to_set().insert(x as int),
{
    let n = r.len();
    let mut pos: usize = 0;
    while pos < n && r[pos] < x
        invariant
            pos <= n,
            n == r@.len(),
            forall|j: int| 0 <= j < pos ==> r@[j] < x,
        decreases n - pos,
    {
        pos = pos + 1;
    }
    let ghost old_r = r@;
    if pos < n && r[pos] == x {
        assert(ints_usize(r@).to_set().contains(x as int)) by {
            assert(ints_usize(r@)[pos as int] == x as int);
        }
        assert(ints_usize(r@).to_set() =~= ints_usize(r@).to_set().insert(x as int));
        return;
    }
    r.insert(pos, x);
    let ghost a = ints_usize(old_r);
    let ghost b = ints_usize(r@);
    assert(b =~= a.insert(pos as int, x as int));
    assert forall|i: int, j: int| 0 <= i < j < b.len() implies b[i] < b[j] by {
        if j < pos {
        } else if j == pos {
        } else if i < pos {
            assert(old_r[j - 1] > x) by {
                assert(old_r[pos as int] >= x);
                if j - 1 > pos { assert(a[pos as int] < a[j - 1]); }
            }
        } else if i == pos {
            assert(old_r[pos as int] >= x);
            assert(old_r[pos as int] != x);
            if j - 1 > pos { assert(a[pos as int] < a[j - 1]); }
        } else {
            assert(a[i - 1] < a[j - 1]);
        }
    }
    assert forall|y: int| b.to_set().contains(y) <==> a.to_set().insert(x as int).contains(y) by {
        if b.to_set().contains(y) {
            let k = choose|k: int| 0 <= k < b.len() && b[k] == y;
            if k < pos { assert(a[k] == y); } else if k > pos { assert(a[k - 1] == y); }
        }
        if a.to_set().contains(y) {
            let k = choose|k: int| 0 <= k < a.len() && a[k] == y;
            if k < pos { assert(b[k] == y); } else { assert(b[k + 1] == y); }
        }
        if y == x { assert(b[pos as int] == y); }
    }
    assert(b.to_set() =~= a.to_set().insert(x as int));
}

/// Sorts `v` and removes duplicates (`sort` followed by `dedup`).
pub fn sort_dedup_usize(v: &Vec<usize>) -> (r: Vec<usize>)
    ensures
        strictly_sorted(ints_usize(r@)),
        ints_usize(r@).to_set() == ints_usize(v@).to_set(),
        ints_usize(r@) == sorted_set(ints_usize(v@)),
        r@ == sorted_set_usize(v@),
{
    let mut r: Vec<usize> = Vec::new();
    let n = v.len();
    let mut i: usize = 0;
    assert(ints_usize(v@.subrange(0, 0)).to_set() =~= Set::empty());
    assert(ints_usize(r@).to_set() =~= Set::empty());
    while i < n
        invariant
            i <= n,
            n == v@.len(),
            strictly_sorted(ints_usize(r@)),
            ints_usize(r@).to_set() == ints_usize(v@.subrange(0, i as int)).to_set(),
        decreases n - i,
    {
        insert_sorted_usize(&mut r, v[i]);
        let ghost p = ints_usize(v@.subrange(0, i as int));
        let ghost q = ints_usize(v@.subrange(0, (i + 1) as int));
        assert(q =~= p.push(v@[i as int] as int));
        assert(q.to_set() =~= p.to_set().insert(v@[i as int] as int)) by {
            assert forall|y: int| q.to_set().contains(y) <==> p.to_set().insert(v@[i as int] as int).contains(y) by {
                if q.to_set().contains(y) {
                    let k = choose|k: int| 0 <= k < q.len() && q[k] == y;
                    if k < p.len() { assert(p[k] == y); }
                }
                if p.to_set().contains(y) {
                    let k = choose|k: int| 0 <= k < p.len() && p[k] == y;
                    assert(q[k] == y);
                }
                if y == v@[i as int] as int { assert(q[i as int] == y); }
            }
        }
        i = i + 1;
    }
    assert(v@.subrange(0, n as int) =~= v@);
    proof {
        lemma_sorted_set_is(ints_usize(v@), ints_usize(r@));
        lemma_ints_usize_roundtrip(r@);
    }
    r
}


/// Concatenation of all parts, in order.
pub open spec fn concat<A>(parts: Seq<Seq<A>>) -> Seq<A>
    decreases parts.len(),
{
    if parts.len() == 0 {
        Seq::empty()
    } else {
        concat(parts.drop_last()) + parts.last()
    }
}

/// Concatenation of all parts with `sep` between neighbouring parts.
pub open spec fn join_sep<A>(parts: Seq<Seq<A>>, sep: A) -> Seq<A>
    decreases parts.len(),
{
    if parts.len() == 0 {
        Seq::empty()
    } else if parts.len() == 1 {
        parts[0]
    } else {
        join_sep(parts.drop_last(), sep).push(sep) + parts.last()
    }
}

/// One step of `concat` on a prefix.
pub proof fn lemma_concat_step<A>(parts: Seq<Seq<A>>, i: int)
    requires
        0 <= i < parts.len(),
    ensures
        concat(parts.subrange(0, i + 1)) == concat(parts.subrange(0, i)) + parts[i],
{
    assert(parts.subrange(0, i + 1).drop_last() =~= parts.subrange(0, i));
}

/// One step of `join_sep` on a prefix.
pub proof fn lemma_join_sep_step<A>(parts: Seq<Seq<A>>, sep: A, i: int)
    requires
        0 <= i < parts.len(),
    ensures
        join_sep(parts.subrange(0, i + 1), sep) == if i == 0 {
            parts[0]
        } else {
            join_sep(parts.subrange(0, i), sep).push(sep) + parts[i]
        },
{
    assert(parts.subrange(0, i + 1).drop_last() =~= parts.subrange(0, i));
}

/// One step of `filter` on a prefix.
pub proof fn lemma_filter_step<A>(s: Seq<A>, pred: spec_fn(A) -> bool, i: int)
    requires
        0 <= i < s.len(),
    ensures
        s.subrange(0, i + 1).filter(pred) == if pred(s[i]) {
            s.subrange(0, i).filter(pred).push(s[i])
        } else {
            s.subrange(0, i).filter(pred)
        },
{
    assert(s.subrange(0, i + 1) =~= s.subrange(0, i).push(s[i]));
    s.subrange(0, i).lemma_filter_push(s[i], pred);
}

/// Adding an element to a sequence adds it to its set.
pub proof fn lemma_to_set_push(s: Seq<int>, x: int)
    ensures
        s.push(x).to_set() == s.to_set().insert(x),
{
    let q = s.push(x);
    assert forall|y: int| q.to_set().contains(y) <==> s.to_set().insert(x).contains(y) by {
        if q.to_set().contains(y) {
            let k = choose|k: int| 0 <= k < q.len() && q[k] == y;
            if k < s.len() { assert(s[k] == y); }
        }
        if s.to_set().contains(y) {
            let k = choose|k: int| 0 <= k < s.len() && s[k] == y;
            assert(q[k] == y);
        }
        if y == x { assert(q[s.len() as int] == y); }
    }
    assert(q.to_set() =~= s.to_set().insert(x));
}


/// `concat` over a mapped sequence grows by the image of a pushed element.
pub proof fn lemma_concat_map_push<A, B>(s: Seq<A>, x: A, f: spec_fn(A) -> Seq<B>)
    ensures
        concat(s.push(x).map_values(f)) == concat(s.map_values(f)) + f(x),
{
    let m = s.push(x).map_values(f);
    assert(m.drop_last() =~= s.map_values(f));
}

/// Every element of a concatenation comes from one of its parts.
pub proof fn lemma_concat_index<A>(parts: Seq<Seq<A>>, k: int)
    requires
        0 <= k < concat(parts).len(),
    ensures
        exists|j: int, m: int| 0 <= j < parts.len() && 0 <= m < parts[j].len() && concat(parts)[k] == parts[j][m],
    decreases parts.len(),
{
    if parts.len() == 0 {
    } else {
        let pre = concat(parts.drop_last());
        if k < pre.len() {
            lemma_concat_index(parts.drop_last(), k);
            let (j, m) = choose|j: int, m: int| 0 <= j < parts.drop_last().len() && 0 <= m < parts.drop_last()[j].len() && pre[k] == parts.drop_last()[j][m];
            assert(parts[j] == parts.drop_last()[j]);
        } else {
            assert(concat(parts)[k] == parts.last()[k - pre.len()]);
            assert(parts[parts.len() - 1] == parts.last());
        }
    }
}

/// Adding an element to a sequence adds it to its set.
pub proof fn lemma_to_set_push_any<A>(s: Seq<A>, x: A)
    ensures
        s.push(x).to_set() == s.to_set().insert(x),
{
    let q = s.push(x);
    assert forall|y: A| q.to_set().contains(y) <==> s.to_set().insert(x).contains(y) by {
        if q.to_set().contains(y) {
            let k = choose|k: int| 0 <= k < q.len() && q[k] == y;
            if k < s.len() { assert(s[k] == y); }
        }
        if s.to_set().contains(y) {
            let k = choose|k: int| 0 <= k < s.len() && s[k] == y;
            assert(q[k] == y);
        }
        if y == x { assert(q[s.len() as int] == y); }
    }
    assert(q.to_set() =~= s.to_set().insert(x));
}

/// Sequences with the same elements have the same elements as integers.
pub proof fn lemma_ints_usize_same_set(a: Seq<usize>, b: Seq<usize>)
    requires
        a.to_set() == b.to_set(),
    ensures
        ints_usize(a).to_set() == ints_usize(b).to_set(),
{
    assert forall|y: int| ints_usize(a).to_set().contains(y) implies ints_usize(b).to_set().contains(y) by {
        let k = choose|k: int| 0 <= k < ints_usize(a).len() && ints_usize(a)[k] == y;
        assert(a.to_set().contains(a[k]));
        let m = choose|m: int| 0 <= m < b.len() && b[m] == a[k];
        assert(ints_usize(b)[m] == y);
    }
    assert forall|y: int| ints_usize(b).to_set().contains(y) implies ints_usize(a).to_set().contains(y) by {
        let k = choose|k: int| 0 <= k < ints_usize(b).len() && ints_usize(b)[k] == y;
        assert(b.to_set().contains(b[k]));
        let m = choose|m: int| 0 <= m < a.len() && a[m] == b[k];
        assert(ints_usize(a)[m] == y);
    }
    assert(ints_usize(a).to_set() =~= ints_usize(b).to_set());
}

/// `part` stands somewhere in `s`, as a contiguous piece.
pub open spec fn occurs_in<A>(s: Seq<A>, part: Seq<A>) -> bool {
    exists|k: int| 0 <= k && k + part.len() <= s.len() && #[trigger] s.subrange(k, k + part.len()) == part
}

/// A piece of either side of a concatenation is a piece of the concatenation.
pub proof fn lemma_occurs_in_sum<A>(a: Seq<A>, b: Seq<A>, part: Seq<A>)
    requires
        occurs_in(a, part) || occurs_in(b, part),
    ensures
        occurs_in(a + b, part),
{
    let n = part.len();
    if occurs_in(a, part) {
        let k = choose|k: int| 0 <= k && k + n <= a.len() && #[trigger] a.subrange(k, k + n) == part;
        assert((a + b).subrange(k, k + n) =~= a.subrange(k, k + n));
    } else {
        let k = choose|k: int| 0 <= k && k + n <= b.len() && #[trigger] b.subrange(k, k + n) == part;
        assert((a + b).subrange(a.len() + k, a.len() + k + n) =~= b.subrange(k, k + n));
    }
}

/// A sequence is a piece of itself.
pub proof fn lemma_occurs_in_self<A>(s: Seq<A>)
    ensures
        occurs_in(s, s),
{
    let k: int = 0;
    assert(s.subrange(k, k + s.len()) =~= s);
}

/// A piece stays a piece when an element is added at the end.
pub proof fn lemma_occurs_in_push<A>(s: Seq<A>, x: A, part: Seq<A>)
    requires
        occurs_in(s, part),
    ensures
        occurs_in(s.push(x), part),
{
    let n = part.len();
    let k = choose|k: int| 0 <= k && k + n <= s.len() && #[trigger] s.subrange(k, k + n) == part;
    assert(s.push(x).subrange(k, k + n) =~= s.subrange(k, k + n));
}

/// Each part of a concatenation is a piece of it.
pub proof fn lemma_occurs_in_concat<A>(parts: Seq<Seq<A>>, i: int)
    requires
        0 <= i < parts.len(),
    ensures
        occurs_in(concat(parts), parts[i]),
    decreases parts.len(),
{
    if i == parts.len() - 1 {
        lemma_occurs_in_self(parts[i]);
        lemma_occurs_in_sum(concat(parts.drop_last()), parts.last(), parts[i]);
    } else {
        lemma_occurs_in_concat(parts.drop_last(), i);
        assert(parts.drop_last()[i] == parts[i]);
        lemma_occurs_in_sum(concat(parts.drop_last()), parts.last(), parts[i]);
    }
}

/// Each part of a separated concatenation is a piece of it.
pub proof fn lemma_occurs_in_join_sep<A>(parts: Seq<Seq<A>>, sep: A, i: int)
    requires
        0 <= i < parts.len(),
    ensures
        occurs_in(join_sep(parts, sep), parts[i]),
    decreases parts.len(),
{
    if parts.len() == 1 {
        lemma_occurs_in_self(parts[0]);
    } else if i == parts.len() - 1 {
        lemma_occurs_in_self(parts[i]);
        lemma_occurs_in_sum(join_sep(parts.drop_last(), sep).push(sep), parts.last(), parts[i]);
    } else {
        lemma_occurs_in_join_sep(parts.drop_last(), sep, i);
        assert(parts.drop_last()[i] == parts[i]);
        lemma_occurs_in_push(join_sep(parts.drop_last(), sep), sep, parts[i]);
        lemma_occurs_in_sum(join_sep(parts.drop_last(), sep).push(sep), parts.last(), parts[i]);
    }
}

} // verus!
