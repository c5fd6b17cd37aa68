//! Lexicographic order on sequences, as `Ord` orders strings and vectors of
//! strings, and sorted, duplicate-free collections under it.
use vstd::prelude::*;

verus! {

/// `lt` is a strict total order.
pub open spec fn strict_total<A>(lt: spec_fn(A, A) -> bool) -> bool {
    &&& forall|x: A| !(#[trigger] lt(x, x))
    &&& forall|x: A, y: A, z: A| #[trigger] lt(x, y) && #[trigger] lt(y, z) ==> lt(x, z)
    &&& forall|x: A, y: A| x != y ==> #[trigger] lt(x, y) || #[trigger] lt(y, x)
}

/// Lexicographic order: the first differing element decides, a proper prefix
/// comes first.
pub open spec fn lex_lt<A>(a: Seq<A>, b: Seq<A>, lt: spec_fn(A, A) -> bool) -> bool
    decreases a.len(),
{
    if b.len() == 0 {
        false
    } else if a.len() == 0 {
        true
    } else if lt(a[0], b[0]) {
        true
    } else if a[0] == b[0] {
        lex_lt(a.drop_first(), b.drop_first(), lt)
    } else {
        false
    }
}

/// Characters ordered by code point, as `char` and the bytes of UTF-8 are.
pub open spec fn char_lt() -> spec_fn(char, char) -> bool {
    |x: char, y: char| (x as u32) < (y as u32)
}

/// Strings ordered as `String`'s `Ord` orders them.
pub open spec fn str_lt() -> spec_fn(Seq<char>, Seq<char>) -> bool {
    |a: Seq<char>, b: Seq<char>| lex_lt(a, b, char_lt())
}

/// Vectors of strings ordered as `Vec<String>`'s `Ord` orders them.
pub open spec fn path_lt() -> spec_fn(Seq<Seq<char>>, Seq<Seq<char>>) -> bool {
    |a: Seq<Seq<char>>, b: Seq<Seq<char>>| lex_lt(a, b, str_lt())
}

proof fn lemma_lex_irreflexive<A>(a: Seq<A>, lt: spec_fn(A, A) -> bool)
    requires
        strict_total(lt),
    ensures
        !lex_lt(a, a, lt),
    decreases a.len(),
{
    if a.len() > 0 {
        assert(!lt(a[0], a[0]));
        lemma_lex_irreflexive(a.drop_first(), lt);
    }
}

proof fn lemma_lex_transitive<A>(a: Seq<A>, b: Seq<A>, c: Seq<A>, lt: spec_fn(A, A) -> bool)
    requires
        strict_total(lt),
        lex_lt(a, b, lt),
        lex_lt(b, c, lt),
    ensures
        lex_lt(a, c, lt),
    decreases a.len(),
{
    if a.len() > 0 {
        assert(b.len() > 0);
        assert(c.len() > 0);
        if lt(a[0], b[0]) {
            if lt(b[0], c[0]) {
                assert(lt(a[0], c[0]));
            }
        } else {
            assert(a[0] == b[0]);
            if lt(b[0], c[0]) {
            } else {
                assert(b[0] == c[0]);
                assert(!lt(a[0], c[0]));
                lemma_lex_transitive(a.drop_first(), b.drop_first(), c.drop_first(), lt);
            }
        }
    }
}

proof fn lemma_lex_total<A>(a: Seq<A>, b: Seq<A>, lt: spec_fn(A, A) -> bool)
    requires
        strict_total(lt),
        a != b,
    ensures
        lex_lt(a, b, lt) || lex_lt(b, a, lt),
    decreases a.len(),
{
    if a.len() == 0 && b.len() == 0 {
        assert(a =~= b);
    } else if a.len() > 0 && b.len() > 0 {
        if a[0] == b[0] {
            if a.drop_first() == b.drop_first() {
                assert(a =~= seq![a[0]] + a.drop_first());
                assert(b =~= seq![b[0]] + b.drop_first());
            }
            lemma_lex_total(a.drop_first(), b.drop_first(), lt);
        } else {
            assert(lt(a[0], b[0]) || lt(b[0], a[0]));
        }
    }
}

/// The lexicographic order of a strict total order is a strict total order.
pub proof fn lemma_lex_strict_total<A>(lt: spec_fn(A, A) -> bool)
    requires
        strict_total(lt),
    ensures
        strict_total(|a: Seq<A>, b: Seq<A>| lex_lt(a, b, lt)),
{
    let l = |a: Seq<A>, b: Seq<A>| lex_lt(a, b, lt);
    assert forall|x: Seq<A>| !(#[trigger] l(x, x)) by {
        lemma_lex_irreflexive(x, lt);
    }
    assert forall|x: Seq<A>, y: Seq<A>, z: Seq<A>| #[trigger] l(x, y) && #[trigger] l(y, z) implies l(x, z) by {
        lemma_lex_transitive(x, y, z, lt);
    }
    assert forall|x: Seq<A>, y: Seq<A>| x != y implies #[trigger] l(x, y) || #[trigger] l(y, x) by {
        lemma_lex_total(x, y, lt);
    }
}

/// The orders on characters, strings and vectors of strings are strict total orders.
pub proof fn lemma_orders_strict_total()
    ensures
        strict_total(char_lt()),
        strict_total(str_lt()),
        strict_total(path_lt()),
{
    assert forall|x: char, y: char| x != y implies #[trigger] char_lt()(x, y) || #[trigger] char_lt()(y, x) by {
        if (x as u32) == (y as u32) {
            vstd::utf8::char_u32_cast(x, x as u32);
            vstd::utf8::char_u32_cast(y, y as u32);
        }
    }
    lemma_lex_strict_total(char_lt());
    assert(str_lt() =~= (|a: Seq<char>, b: Seq<char>| lex_lt(a, b, char_lt())));
    lemma_lex_strict_total(str_lt());
    assert(path_lt() =~= (|a: Seq<Seq<char>>, b: Seq<Seq<char>>| lex_lt(a, b, str_lt())));
}

/// `s` is strictly increasing under `lt`.
pub open spec fn sorted_by<A>(s: Seq<A>, lt: spec_fn(A, A) -> bool) -> bool {
    forall|i: int, j: int| 0 <= i < j < s.len() ==> #[trigger] lt(s[i], s[j])
}

/// The strictly increasing arrangement, under `lt`, of the elements of `s`: what
/// collecting `s` into a `BTreeSet` and walking it gives.
pub open spec fn sorted_unique<A>(s: Seq<A>, lt: spec_fn(A, A) -> bool) -> Seq<A> {
    choose|r: Seq<A>| sorted_by(r, lt) && r.to_set() == s.to_set()
}

/// Two strictly increasing sequences with the same elements are equal.
pub proof fn lemma_sorted_unique<A>(a: Seq<A>, b: Seq<A>, lt: spec_fn(A, A) -> bool)
    requires
        strict_total(lt),
        sorted_by(a, lt),
        sorted_by(b, lt),
        a.to_set() == b.to_set(),
    ensures
        a == b,
    decreases a.len(),
{
    if a.len() == 0 {
        if b.len() > 0 {
            assert(b.to_set().contains(b[0]));
        }
        assert(a =~= b);
    } else if b.len() == 0 {
        assert(a.to_set().contains(a[0]));
    } else {
        assert(a.to_set().contains(a[0]));
        assert(b.to_set().contains(b[0]));
        let k = choose|k: int| 0 <= k < b.len() && b[k] == a[0];
        let m = choose|m: int| 0 <= m < a.len() && a[m] == b[0];
        if a[0] != b[0] {
            assert(k > 0 && m > 0);
            assert(lt(b[0], b[k]));
            assert(lt(a[0], a[m]));
            assert(lt(a[0], a[0]));
        }
        let a1 = a.drop_first();
        let b1 = b.drop_first();
        assert forall|x: A| a1.to_set().contains(x) implies b1.to_set().contains(x) by {
            let i = choose|i: int| 0 <= i < a1.len() && a1[i] == x;
            assert(a[i + 1] == x);
            assert(a.to_set().contains(x));
            let j = choose|j: int| 0 <= j < b.len() && b[j] == x;
            assert(lt(a[0], a[i + 1]));
            if j == 0 {
                assert(lt(x, x));
            }
            assert(b1[j - 1] == x);
        }
        assert forall|x: A| b1.to_set().contains(x) implies a1.to_set().contains(x) by {
            let i = choose|i: int| 0 <= i < b1.len() && b1[i] == x;
            assert(b[i + 1] == x);
            assert(b.to_set().contains(x));
            let j = choose|j: int| 0 <= j < a.len() && a[j] == x;
            assert(lt(b[0], b[i + 1]));
            if j == 0 {
                assert(lt(x, x));
            }
            assert(a1[j - 1] == x);
        }
        assert(a1.to_set() =~= b1.to_set());
        lemma_sorted_unique(a1, b1, lt);
        assert(a =~= seq![a[0]] + a1);
        assert(b =~= seq![b[0]] + b1);
    }
}

/// The position in the strictly increasing `r` before which `x` belongs: every
/// element before it is below `x`, the element at it is not.
proof fn lemma_split_point<A>(r: Seq<A>, x: A, lt: spec_fn(A, A) -> bool) -> (k: int)
    ensures
        0 <= k <= r.len(),
        forall|j: int| 0 <= j < k ==> #[trigger] lt(r[j], x),
        k < r.len() ==> !lt(r[k], x),
    decreases r.len(),
{
    if r.len() == 0 {
        0
    } else {
        let k0 = lemma_split_point(r.drop_last(), x, lt);
        assert forall|j: int| 0 <= j < k0 implies #[trigger] lt(r[j], x) by {
            assert(r.drop_last()[j] == r[j]);
        }
        if k0 == r.len() - 1 && lt(r.last(), x) {
            r.len() as int
        } else {
            if k0 < r.len() - 1 {
                assert(r.drop_last()[k0] == r[k0]);
            }
            k0
        }
    }
}

/// Every sequence has a strictly increasing arrangement of its elements, so
/// `sorted_unique` gives one.
pub proof fn lemma_sorted_unique_props<A>(s: Seq<A>, lt: spec_fn(A, A) -> bool)
    requires
        strict_total(lt),
    ensures
        sorted_by(sorted_unique(s, lt), lt),
        sorted_unique(s, lt).to_set() == s.to_set(),
    decreases s.len(),
{
    if s.len() == 0 {
        let e = Seq::<A>::empty();
        assert(e.to_set() =~= s.to_set());
        assert(sorted_by(e, lt));
    } else {
        let pre = s.drop_last();
        let x = s.last();
        lemma_sorted_unique_props(pre, lt);
        let r = sorted_unique(pre, lt);
        assert(s =~= pre.push(x));
        let q = if r.contains(x) {
            r
        } else {
            let k = lemma_split_point(r, x, lt);
            let q = r.insert(k, x);
            assert forall|i: int, j: int| 0 <= i < j < q.len() implies #[trigger] lt(q[i], q[j]) by {
                if k < r.len() {
                    assert(r[k] != x);
                    assert(lt(x, r[k]));
                }
                if j < k {
                    assert(lt(r[i], r[j]));
                } else if j == k {
                    assert(lt(r[i], x));
                } else if i < k {
                    assert(lt(r[i], x));
                    if j - 1 > k {
                        assert(lt(r[k], r[j - 1]));
                    }
                    assert(lt(x, r[j - 1]));
                } else if i == k {
                    if j - 1 > k {
                        assert(lt(r[k], r[j - 1]));
                    }
                } else {
                    assert(lt(r[i - 1], r[j - 1]));
                }
            }
            q
        };
        assert forall|y: A| q.to_set().contains(y) <==> s.to_set().contains(y) by {
            if q.to_set().contains(y) {
                let w = choose|w: int| 0 <= w < q.len() && q[w] == y;
                if y != x {
                    if !r.contains(x) {
                        let k = choose|k: int| 0 <= k <= r.len() && q == r.insert(k, x);
                        if w < k { assert(r[w] == y); } else if w > k { assert(r[w - 1] == y); }
                    }
                    assert(r.contains(y));
                    assert(r.to_set().contains(y));
                    assert(pre.to_set().contains(y));
                    let v = choose|v: int| 0 <= v < pre.len() && pre[v] == y;
                    assert(s[v] == y);
                } else {
                    assert(s[s.len() - 1] == y);
                }
            }
            if s.to_set().contains(y) {
                let v = choose|v: int| 0 <= v < s.len() && s[v] == y;
                if v < s.len() - 1 {
                    assert(pre[v] == y);
                    assert(pre.to_set().contains(y));
                    assert(r.to_set().contains(y));
                    let w = choose|w: int| 0 <= w < r.len() && r[w] == y;
                    if r.contains(x) {
                        assert(q[w] == y);
                    } else {
                        let k = choose|k: int| 0 <= k <= r.len() && q == r.insert(k, x);
                        if w < k { assert(q[w] == y); } else { assert(q[w + 1] == y); }
                    }
                } else {
                    if r.contains(x) {
                        let w = choose|w: int| 0 <= w < r.len() && r[w] == x;
                        assert(q[w] == y);
                    } else {
                        let k = choose|k: int| 0 <= k <= r.len() && q == r.insert(k, x);
                        assert(q[k] == y);
                    }
                }
            }
        }
        assert(q.to_set() =~= s.to_set());
        lemma_sorted_unique_is(s, q, lt);
    }
}

/// A strictly increasing arrangement of the elements of `s` is `sorted_unique(s)`.
pub proof fn lemma_sorted_unique_is<A>(s: Seq<A>, r: Seq<A>, lt: spec_fn(A, A) -> bool)
    requires
        strict_total(lt),
        sorted_by(r, lt),
        r.to_set() == s.to_set(),
    ensures
        sorted_unique(s, lt) == r,
{
    assert(exists|q: Seq<A>| sorted_by(q, lt) && q.to_set() == s.to_set());
    let q = sorted_unique(s, lt);
    lemma_sorted_unique(q, r, lt);
}

/// `a < b` on strings.
pub fn string_lt(a: &String, b: &String) -> (r: bool)
    ensures
        r == str_lt()(a@, b@),
{
    let sa = a.as_str();
    let sb = b.as_str();
    let n = sa.unicode_len();
    let m = sb.unicode_len();
    let mut i: usize = 0;
    assert(a@.subrange(0, n as int) =~= a@);
    assert(b@.subrange(0, m as int) =~= b@);
    while i < n && i < m
        invariant
            i <= n,
            i <= m,
            n == a@.len(),
            m == b@.len(),
            sa@ == a@,
            sb@ == b@,
            a@.subrange(0, i as int) == b@.subrange(0, i as int),
            lex_lt(a@, b@, char_lt()) == lex_lt(a@.subrange(i as int, n as int), b@.subrange(i as int, m as int), char_lt()),
        decreases n - i,
    {
        let x = sa.get_char(i);
        let y = sb.get_char(i);
        let ghost ra = a@.subrange(i as int, n as int);
        let ghost rb = b@.subrange(i as int, m as int);
        assert(ra[0] == x && rb[0] == y);
        if (x as u32) < (y as u32) {
            return true;
        }
        if x != y {
            return false;
        }
        assert(ra.drop_first() =~= a@.subrange(i + 1, n as int));
        assert(rb.drop_first() =~= b@.subrange(i + 1, m as int));
        assert(a@.subrange(0, i + 1) =~= a@.subrange(0, i as int).push(x));
        assert(b@.subrange(0, i + 1) =~= b@.subrange(0, i as int).push(y));
        i = i + 1;
    }
    i < m
}

/// `a < b` on vectors of strings.
pub fn path_lt_exec(a: &Vec<String>, b: &Vec<String>) -> (r: bool)
    ensures
        r == path_lt()(a.deep_view(), b.deep_view()),
{
    let ghost av = a.deep_view();
    let ghost bv = b.deep_view();
    let n = a.len();
    let m = b.len();
    let mut i: usize = 0;
    assert(av.subrange(0, n as int) =~= av);
    assert(bv.subrange(0, m as int) =~= bv);
    while i < n && i < m
        invariant
            i <= n,
            i <= m,
            n == av.len(),
            m == bv.len(),
            av == a.deep_view(),
            bv == b.deep_view(),
            lex_lt(av, bv, str_lt()) == lex_lt(av.subrange(i as int, n as int), bv.subrange(i as int, m as int), str_lt()),
        decreases n - i,
    {
        let ghost ra = av.subrange(i as int, n as int);
        let ghost rb = bv.subrange(i as int, m as int);
        assert(ra[0] == a@[i as int]@ && rb[0] == b@[i as int]@);
        if string_lt(&a[i], &b[i]) {
            return true;
        }
        if a[i] != b[i] {
            return false;
        }
        assert(ra.drop_first() =~= av.subrange(i + 1, n as int));
        assert(rb.drop_first() =~= bv.subrange(i + 1, m as int));
        i = i + 1;
    }
    i < m
}

/// Inserts `x` into the strictly increasing `r` unless an equal path is present.
fn insert_path(r: &mut Vec<Vec<String>>, x: Vec<String>)
    requires
        sorted_by(old(r).deep_view(), path_lt()),
    ensures
        sorted_by(final(r).deep_view(), path_lt()),
        final(r).deep_view().to_set() == old(r).deep_view().to_set().insert(x.deep_view()),
{
    proof { lemma_orders_strict_total(); }
    let ghost lt = path_lt();
    let ghost xv = x.deep_view();
    let ghost a = r.deep_view();
    let n = r.len();
    let mut pos: usize = 0;
    let mut searching = true;
    while searching && pos < n
        invariant
            pos <= n,
            n == r@.len(),
            a == r.deep_view(),
            lt == path_lt(),
            xv == x.deep_view(),
            forall|j: int| 0 <= j < pos ==> #[trigger] lt(a[j], xv),
            !searching ==> pos < n && !lt(a[pos as int], xv),
        decreases n - pos + (if searching { 1int } else { 0int }),
    {
        assert(r@[pos as int].deep_view() == a[pos as int]);
        if path_lt_exec(&r[pos], &x) {
            pos = pos + 1;
        } else {
            searching = false;
        }
    }
    if pos < n {
        assert(r@[pos as int].deep_view() == a[pos as int]);
        if !path_lt_exec(&x, &r[pos]) {
            assert(a[pos as int] == xv);
            assert(a.to_set().contains(xv));
            assert(a.to_set() =~= a.to_set().insert(xv));
            return;
        }
    }
    r.insert(pos, x);
    let ghost b = r.deep_view();
    assert(b =~= a.insert(pos as int, xv));
    assert forall|i: int, j: int| 0 <= i < j < b.len() implies #[trigger] lt(b[i], b[j]) by {
        if j < pos {
            assert(lt(a[i], a[j]));
        } else if j == pos {
            assert(lt(a[i], xv));
        } else if i < pos {
            assert(lt(a[i], xv));
            assert(lt(xv, a[pos as int]));
            if j - 1 > pos {
                assert(lt(a[pos as int], a[j - 1]));
            }
            assert(lt(xv, a[j - 1]));
        } else if i == pos {
            assert(lt(xv, a[pos as int]));
            if j - 1 > pos {
                assert(lt(a[pos as int], a[j - 1]));
            }
        } else {
            assert(lt(a[i - 1], a[j - 1]));
        }
    }
    assert forall|y: Seq<Seq<char>>| b.to_set().contains(y) <==> a.to_set().insert(xv).contains(y) by {
        if b.to_set().contains(y) {
            let k = choose|k: int| 0 <= k < b.len() && b[k] == y;
            if k < pos { assert(a[k] == y); } else if k > pos { assert(a[k - 1] == y); }
        }
        if a.to_set().contains(y) {
            let k = choose|k: int| 0 <= k < a.len() && a[k] == y;
            if k < pos { assert(b[k] == y); } else { assert(b[k + 1] == y); }
        }
        if y == xv { assert(b[pos as int] == y); }
    }
    assert(b.to_set() =~= a.to_set().insert(xv));
}

/// Sorts the paths and removes duplicates, as collecting them into a `BTreeSet` does.
pub fn sort_dedup_paths(v: Vec<Vec<String>>) -> (r: Vec<Vec<String>>)
    ensures
        r.deep_view() == sorted_unique(v.deep_view(), path_lt()),
{
    let ghost vv = v.deep_view();
    let mut r: Vec<Vec<String>> = Vec::new();
    let mut v = v;
    let n = v.len();
    let mut i: usize = 0;
    assert(vv.subrange(0, 0).to_set() =~= Set::empty());
    assert(r.deep_view().to_set() =~= Set::empty());
    assert(v.deep_view() =~= vv.subrange(0, n as int));
    while i < n
        invariant
            i <= n,
            n == vv.len(),
            v.deep_view() == vv.subrange(i as int, n as int),
            sorted_by(r.deep_view(), path_lt()),
            r.deep_view().to_set() == vv.subrange(0, i as int).to_set(),
        decreases n - i,
    {
        let ghost before = v.deep_view();
        let ghost before_v = v@;
        assert(v@.len() == before.len());
        let x = v.remove(0);
        assert(v@ == before_v.remove(0));
        assert forall|k: int| 0 <= k < v@.len() implies #[trigger] v.deep_view()[k] == before[k + 1] by {
            assert(v@[k] == before_v[k + 1]);
        }
        assert(x.deep_view() == before[0]);
        assert(x.deep_view() == vv[i as int]);
        assert(v.deep_view() =~= vv.subrange(i + 1, n as int));
        insert_path(&mut r, x);
        let ghost p = vv.subrange(0, i as int);
        let ghost q = vv.subrange(0, (i + 1) as int);
        assert(q =~= p.push(vv[i as int]));
        assert(q.to_set() =~= p.to_set().insert(vv[i as int])) by {
            assert forall|y: Seq<Seq<char>>| q.to_set().contains(y) <==> p.to_set().insert(vv[i as int]).contains(y) by {
                if q.to_set().contains(y) {
                    let k = choose|k: int| 0 <= k < q.len() && q[k] == y;
                    if k < p.len() { assert(p[k] == y); }
                }
                if p.to_set().contains(y) {
                    let k = choose|k: int| 0 <= k < p.len() && p[k] == y;
                    assert(q[k] == y);
                }
                if y == vv[i as int] { assert(q[i as int] == y); }
            }
        }
        i = i + 1;
    }
    assert(vv.subrange(0, n as int) =~= vv);
    proof {
        lemma_orders_strict_total();
        lemma_sorted_unique_is(vv, r.deep_view(), path_lt());
    }
    r
}

/// Inserts `x` into the strictly increasing `r` unless an equal string is present.
fn insert_string(r: &mut Vec<String>, x: String)
    requires
        sorted_by(old(r).deep_view(), str_lt()),
    ensures
        sorted_by(final(r).deep_view(), str_lt()),
        final(r).deep_view().to_set() == old(r).deep_view().to_set().insert(x@),
{
    proof { lemma_orders_strict_total(); }
    let ghost lt = str_lt();
    let ghost xv = x@;
    let ghost a = r.deep_view();
    let n = r.len();
    let mut pos: usize = 0;
    let mut searching = true;
    while searching && pos < n
        invariant
            pos <= n,
            n == r@.len(),
            a == r.deep_view(),
            lt == str_lt(),
            xv == x@,
            forall|j: int| 0 <= j < pos ==> #[trigger] lt(a[j], xv),
            !searching ==> pos < n && !lt(a[pos as int], xv),
        decreases n - pos + (if searching { 1int } else { 0int }),
    {
        assert(r@[pos as int]@ == a[pos as int]);
        if string_lt(&r[pos], &x) {
            pos = pos + 1;
        } else {
            searching = false;
        }
    }
    if pos < n {
        assert(r@[pos as int]@ == a[pos as int]);
        if !string_lt(&x, &r[pos]) {
            assert(a[pos as int] == xv);
            assert(a.to_set().contains(xv));
            assert(a.to_set() =~= a.to_set().insert(xv));
            return;
        }
    }
    r.insert(pos, x);
    let ghost b = r.deep_view();
    assert(b =~= a.insert(pos as int, xv));
    assert forall|i: int, j: int| 0 <= i < j < b.len() implies #[trigger] lt(b[i], b[j]) by {
        if j < pos {
            assert(lt(a[i], a[j]));
        } else if j == pos {
            assert(lt(a[i], xv));
        } else if i < pos {
            assert(lt(a[i], xv));
            assert(lt(xv, a[pos as int]));
            if j - 1 > pos {
                assert(lt(a[pos as int], a[j - 1]));
            }
            assert(lt(xv, a[j - 1]));
        } else if i == pos {
            assert(lt(xv, a[pos as int]));
            if j - 1 > pos {
                assert(lt(a[pos as int], a[j - 1]));
            }
        } else {
            assert(lt(a[i - 1], a[j - 1]));
        }
    }
    assert forall|y: Seq<char>| b.to_set().contains(y) <==> a.to_set().insert(xv).contains(y) by {
        if b.to_set().contains(y) {
            let k = choose|k: int| 0 <= k < b.len() && b[k] == y;
            if k < pos { assert(a[k] == y); } else if k > pos { assert(a[k - 1] == y); }
        }
        if a.to_set().contains(y) {
            let k = choose|k: int| 0 <= k < a.len() && a[k] == y;
            if k < pos { assert(b[k] == y); } else { assert(b[k + 1] == y); }
        }
        if y == xv { assert(b[pos as int] == y); }
    }
    assert(b.to_set() =~= a.to_set().insert(xv));
}

/// Sorts the strings and removes duplicates, as collecting them into a `BTreeSet` does.
pub fn sort_dedup_strings(v: Vec<String>) -> (r: Vec<String>)
    ensures
        r.deep_view() == sorted_unique(v.deep_view(), str_lt()),
{
    let ghost vv = v.deep_view();
    let mut r: Vec<String> = Vec::new();
    let mut v = v;
    let n = v.len();
    let mut i: usize = 0;
    assert(vv.subrange(0, 0).to_set() =~= Set::empty());
    assert(r.deep_view().to_set() =~= Set::empty());
    assert(v.deep_view() =~= vv.subrange(0, n as int));
    while i < n
        invariant
            i <= n,
            n == vv.len(),
            v.deep_view() == vv.subrange(i as int, n as int),
            sorted_by(r.deep_view(), str_lt()),
            r.deep_view().to_set() == vv.subrange(0, i as int).to_set(),
        decreases n - i,
    {
        let ghost before = v.deep_view();
        let ghost before_v = v@;
        assert(v@.len() == before.len());
        let x = v.remove(0);
        assert(v@ == before_v.remove(0));
        assert forall|k: int| 0 <= k < v@.len() implies #[trigger] v.deep_view()[k] == before[k + 1] by {
            assert(v@[k] == before_v[k + 1]);
        }
        assert(x@ == before[0]);
        assert(x@ == vv[i as int]);
        assert(v.deep_view() =~= vv.subrange(i + 1, n as int));
        insert_string(&mut r, x);
        let ghost p = vv.subrange(0, i as int);
        let ghost q = vv.subrange(0, (i + 1) as int);
        assert(q =~= p.push(vv[i as int]));
        assert(q.to_set() =~= p.to_set().insert(vv[i as int])) by {
            assert forall|y: Seq<char>| q.to_set().contains(y) <==> p.to_set().insert(vv[i as int]).contains(y) by {
                if q.to_set().contains(y) {
                    let k = choose|k: int| 0 <= k < q.len() && q[k] == y;
                    if k < p.len() { assert(p[k] == y); }
                }
                if p.to_set().contains(y) {
                    let k = choose|k: int| 0 <= k < p.len() && p[k] == y;
                    assert(q[k] == y);
                }
                if y == vv[i as int] { assert(q[i as int] == y); }
            }
        }
        i = i + 1;
    }
    assert(vv.subrange(0, n as int) =~= vv);
    proof {
        lemma_orders_strict_total();
        lemma_sorted_unique_is(vv, r.deep_view(), str_lt());
    }
    r
}

/// Triples of integers ordered lexicographically, as tuples are.
pub open spec fn triple_lt() -> spec_fn((i32, i32, i32), (i32, i32, i32)) -> bool {
    |a: (i32, i32, i32), b: (i32, i32, i32)|
        a.0 < b.0 || (a.0 == b.0 && (a.1 < b.1 || (a.1 == b.1 && a.2 < b.2)))
}

/// The order on triples is a strict total order.
pub proof fn lemma_triple_lt_strict_total()
    ensures
        strict_total(triple_lt()),
{
    let lt = triple_lt();
    assert forall|x: (i32, i32, i32)| !(#[trigger] lt(x, x)) by {}
    assert forall|x: (i32, i32, i32), y: (i32, i32, i32), z: (i32, i32, i32)|
        #[trigger] lt(x, y) && #[trigger] lt(y, z) implies lt(x, z) by {}
    assert forall|x: (i32, i32, i32), y: (i32, i32, i32)| x != y implies #[trigger] lt(x, y) || #[trigger] lt(y, x) by {}
}

/// `a < b` on triples.
fn triple_less(a: (i32, i32, i32), b: (i32, i32, i32)) -> (r: bool)
    ensures
        r == triple_lt()(a, b),
{
    a.0 < b.0 || (a.0 == b.0 && (a.1 < b.1 || (a.1 == b.1 && a.2 < b.2)))
}

/// Inserts `x` into the strictly increasing `r` unless present.
fn insert_triple(r: &mut Vec<(i32, i32, i32)>, x: (i32, i32, i32))
    requires
        sorted_by(old(r)@, triple_lt()),
    ensures
        sorted_by(final(r)@, triple_lt()),
        final(r)@.to_set() == old(r)@.to_set().insert(x),
{
    proof { lemma_triple_lt_strict_total(); }
    let ghost lt = triple_lt();
    let ghost a = r@;
    let n = r.len();
    let mut pos: usize = 0;
    let mut searching = true;
    while searching && pos < n
        invariant
            pos <= n,
            n == r@.len(),
            a == r@,
            lt == triple_lt(),
            forall|j: int| 0 <= j < pos ==> #[trigger] lt(a[j], x),
            !searching ==> pos < n && !lt(a[pos as int], x),
        decreases n - pos + (if searching { 1int } else { 0int }),
    {
        if triple_less(r[pos], x) {
            pos = pos + 1;
        } else {
            searching = false;
        }
    }
    if pos < n {
        if !triple_less(x, r[pos]) {
            assert(a[pos as int] == x);
            assert(a.to_set().contains(x));
            assert(a.to_set() =~= a.to_set().insert(x));
            return;
        }
    }
    r.insert(pos, x);
    let ghost b = r@;
    assert(b =~= a.insert(pos as int, x));
    assert forall|i: int, j: int| 0 <= i < j < b.len() implies #[trigger] lt(b[i], b[j]) by {
        if j < pos {
            assert(lt(a[i], a[j]));
        } else if j == pos {
            assert(lt(a[i], x));
        } else if i < pos {
            assert(lt(a[i], x));
            assert(lt(x, a[pos as int]));
            if j - 1 > pos {
                assert(lt(a[pos as int], a[j - 1]));
            }
            assert(lt(x, a[j - 1]));
        } else if i == pos {
            assert(lt(x, a[pos as int]));
            if j - 1 > pos {
                assert(lt(a[pos as int], a[j - 1]));
            }
        } else {
            assert(lt(a[i - 1], a[j - 1]));
        }
    }
    assert forall|y: (i32, i32, i32)| b.to_set().contains(y) <==> a.to_set().insert(x).contains(y) by {
        if b.to_set().contains(y) {
            let k = choose|k: int| 0 <= k < b.len() && b[k] == y;
            if k < pos { assert(a[k] == y); } else if k > pos { assert(a[k - 1] == y); }
        }
        if a.to_set().contains(y) {
            let k = choose|k: int| 0 <= k < a.len() && a[k] == y;
            if k < pos { assert(b[k] == y); } else { assert(b[k + 1] == y); }
        }
        if y == x { assert(b[pos as int] == y); }
    }
    assert(b.to_set() =~= a.to_set().insert(x));
}

/// Sorts the triples and removes duplicates (`sort_unstable` followed by `dedup`).
pub fn sort_dedup_triples(v: &Vec<(i32, i32, i32)>) -> (r: Vec<(i32, i32, i32)>)
    ensures
        r@ == sorted_unique(v@, triple_lt()),
{
    let mut r: Vec<(i32, i32, i32)> = Vec::new();
    let n = v.len();
    let mut i: usize = 0;
    assert(v@.subrange(0, 0).to_set() =~= Set::empty());
    assert(r@.to_set() =~= Set::empty());
    while i < n
        invariant
            i <= n,
            n == v@.len(),
            sorted_by(r@, triple_lt()),
            r@.to_set() == v@.subrange(0, i as int).to_set(),
        decreases n - i,
    {
        insert_triple(&mut r, v[i]);
        let ghost p = v@.subrange(0, i as int);
        let ghost q = v@.subrange(0, (i + 1) as int);
        assert(q =~= p.push(v@[i as int]));
        assert(q.to_set() =~= p.to_set().insert(v@[i as int])) by {
            assert forall|y: (i32, i32, i32)| q.to_set().contains(y) <==> p.to_set().insert(v@[i as int]).contains(y) by {
                if q.to_set().contains(y) {
                    let k = choose|k: int| 0 <= k < q.len() && q[k] == y;
                    if k < p.len() { assert(p[k] == y); }
                }
                if p.to_set().contains(y) {
                    let k = choose|k: int| 0 <= k < p.len() && p[k] == y;
                    assert(q[k] == y);
                }
                if y == v@[i as int] { assert(q[i as int] == y); }
            }
        }
        i = i + 1;
    }
    assert(v@.subrange(0, n as int) =~= v@);
    proof {
        lemma_triple_lt_strict_total();
        lemma_sorted_unique_is(v@, r@, triple_lt());
    }
    r
}

} // verus!
