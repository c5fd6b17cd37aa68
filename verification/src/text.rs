//! Decimal rendering of integers, small string helpers and the token sequence
//! in which generated code is assembled.
use vstd::prelude::*;
use crate::seqs::{join_sep, lemma_join_sep_step};

verus! {

/// The character of a decimal digit.
pub open spec fn digit_char(d: int) -> char {
    if d == 0 { '0' } else if d == 1 { '1' } else if d == 2 { '2' } else if d == 3 { '3' }
    else if d == 4 { '4' } else if d == 5 { '5' } else if d == 6 { '6' } else if d == 7 { '7' }
    else if d == 8 { '8' } else { '9' }
}

/// Decimal digits of a natural number, most significant first, without leading zeros.
pub open spec fn nat_decimal(n: nat) -> Seq<char>
    decreases n,
{
    if n < 10 {
        seq![digit_char(n as int)]
    } else {
        nat_decimal(n / 10).push(digit_char((n % 10) as int))
    }
}

/// Decimal rendering of an integer, with a leading `-` for negative values.
pub open spec fn int_decimal(i: int) -> Seq<char> {
    if i < 0 {
        seq!['-'] + nat_decimal((-i) as nat)
    } else {
        nat_decimal(i as nat)
    }
}

/// Appends one character to a string (`String::push`).
#[verifier::external_body]
pub(crate) fn push_char(s: &mut String, c: char)
    ensures
        final(s)@ == old(s)@.push(c),
{
    s.push(c);
}

fn digit(d: u64) -> (c: char)
    requires
        d < 10,
    ensures
        c == digit_char(d as int),
{
    if d == 0 { '0' } else if d == 1 { '1' } else if d == 2 { '2' } else if d == 3 { '3' }
    else if d == 4 { '4' } else if d == 5 { '5' } else if d == 6 { '6' } else if d == 7 { '7' }
    else if d == 8 { '8' } else { '9' }
}

/// Renders an unsigned number in decimal.
pub fn u64_to_string(n: u64) -> (s: String)
    ensures
        s@ == nat_decimal(n as nat),
    decreases n,
{
    if n < 10 {
        let mut s = String::new();
        push_char(&mut s, digit(n));
        s
    } else {
        let mut s = u64_to_string(n / 10);
        push_char(&mut s, digit(n % 10));
        s
    }
}

/// Renders a signed number in decimal, as `Display` does.
pub fn i32_to_string(i: i32) -> (s: String)
    ensures
        s@ == int_decimal(i as int),
{
    if i < 0 {
        let m: i64 = -(i as i64);
        let digits = u64_to_string(m as u64);
        let mut s = String::new();
        push_char(&mut s, '-');
        let ghost pre = s@;
        s.append(digits.as_str());
        assert(s@ =~= seq!['-'] + nat_decimal((-(i as int)) as nat));
        s
    } else {
        u64_to_string(i as u64)
    }
}

/// Renders a `usize` in decimal.
pub fn usize_to_string(n: usize) -> (s: String)
    ensures
        s@ == nat_decimal(n as nat),
{
    u64_to_string(n as u64)
}


/// Renders a token sequence as source text: tokens separated by single spaces.
pub open spec fn render(ts: Seq<Seq<char>>) -> Seq<char>
    decreases ts.len(),
{
    if ts.len() == 0 {
        Seq::empty()
    } else if ts.len() == 1 {
        ts[0]
    } else {
        render(ts.drop_last()) + seq![' '] + ts.last()
    }
}

/// A sequence of source tokens, the unit in which code is generated.
pub struct Tokens {
    pub toks: Vec<String>,
}

impl View for Tokens {
    type V = Seq<Seq<char>>;

    open spec fn view(&self) -> Seq<Seq<char>> {
        self.toks.deep_view()
    }
}

impl DeepView for Tokens {
    type V = Seq<Seq<char>>;

    open spec fn deep_view(&self) -> Seq<Seq<char>> {
        self@
    }
}

impl Tokens {
    /// An empty token sequence.
    pub fn new() -> (t: Tokens)
        ensures
            t@ == Seq::<Seq<char>>::empty(),
    {
        let t = Tokens { toks: Vec::new() };
        assert(t@ =~= Seq::<Seq<char>>::empty());
        t
    }

    /// Appends a token given as text.
    pub fn push(&mut self, tok: &str)
        ensures
            final(self)@ == old(self)@.push(tok@),
    {
        let s = String::from_str(tok);
        self.toks.push(s);
        assert(self@ =~= old(self)@.push(tok@));
    }

    /// Appends a token given as an owned string.
    pub fn push_string(&mut self, tok: String)
        ensures
            final(self)@ == old(self)@.push(tok@),
    {
        let ghost v = tok@;
        self.toks.push(tok);
        assert(self@ =~= old(self)@.push(v));
    }

    /// Appends all tokens of `other`.
    pub fn extend(&mut self, other: &Tokens)
        ensures
            final(self)@ == old(self)@ + other@,
    {
        let n = other.toks.len();
        let mut i: usize = 0;
        while i < n
            invariant
                i <= n,
                n == other.toks@.len(),
                self@ == old(self)@ + other@.subrange(0, i as int),
            decreases n - i,
        {
            let s = other.toks[i].clone();
            self.push_string(s);
            assert(other@.subrange(0, (i + 1) as int) =~= other@.subrange(0, i as int).push(other@[i as int]));
            i = i + 1;
        }
        assert(other@.subrange(0, n as int) =~= other@);
    }

    /// A copy of the tokens.
    pub fn copy(&self) -> (t: Tokens)
        ensures
            t@ == self@,
    {
        let mut t = Tokens::new();
        t.extend(self);
        assert(t@ =~= self@);
        t
    }

    /// Appends the tokens of each part, with a `sep` token between neighbouring parts.
    pub fn extend_joined(&mut self, parts: &Vec<Tokens>, sep: &str)
        ensures
            final(self)@ == old(self)@ + join_sep(parts.deep_view(), sep@),
    {
        let ghost base = self@;
        let ghost pv = parts.deep_view();
        let n = parts.len();
        let mut i: usize = 0;
        assert(join_sep(pv.subrange(0, 0), sep@) =~= Seq::<Seq<char>>::empty());
        assert(self@ =~= base + join_sep(pv.subrange(0, 0), sep@));
        while i < n
            invariant
                i <= n,
                n == pv.len(),
                pv == parts.deep_view(),
                self@ == base + join_sep(pv.subrange(0, i as int), sep@),
            decreases n - i,
        {
            proof { lemma_join_sep_step(pv, sep@, i as int); }
            if i > 0 {
                self.push(sep);
            }
            assert(parts@[i as int]@ == pv[i as int]);
            self.extend(&parts[i]);
            if i == 0 {
                assert(self@ =~= base + join_sep(pv.subrange(0, 1), sep@));
            } else {
                assert(self@ =~= base + join_sep(pv.subrange(0, (i + 1) as int), sep@));
            }
            i = i + 1;
        }
        assert(pv.subrange(0, n as int) =~= pv);
    }

    /// The number of tokens.
    pub fn len(&self) -> (n: usize)
        ensures
            n == self@.len(),
    {
        self.toks.len()
    }

    /// Renders the tokens as source text, separated by single spaces.
    pub fn to_string(&self) -> (s: String)
        ensures
            s@ == render(self@),
    {
        let n = self.toks.len();
        let mut s = String::new();
        let mut i: usize = 0;
        while i < n
            invariant
                i <= n,
                n == self.toks@.len(),
                s@ == render(self@.subrange(0, i as int)),
            decreases n - i,
        {
            let ghost prev = self@.subrange(0, i as int);
            if i > 0 {
                push_char(&mut s, ' ');
            }
            s.append(self.toks[i].as_str());
            let ghost next = self@.subrange(0, (i + 1) as int);
            assert(next.drop_last() =~= prev);
            assert(next.last() == self@[i as int]);
            if i == 0 {
                assert(next.len() == 1);
                assert(s@ =~= render(next));
            } else {
                assert(s@ =~= render(next));
            }
            i = i + 1;
        }
        assert(self@.subrange(0, n as int) =~= self@);
        s
    }
}

/// Whether `s` begins with `p`.
pub open spec fn starts_with(s: Seq<char>, p: Seq<char>) -> bool {
    p.len() <= s.len() && s.subrange(0, p.len() as int) == p
}

/// `s.starts_with(p)` on strings.
pub fn string_starts_with(s: &String, p: &str) -> (r: bool)
    ensures
        r == starts_with(s@, p@),
{
    let sv = s.as_str();
    let n = sv.unicode_len();
    let m = p.unicode_len();
    if m > n {
        return false;
    }
    let mut i: usize = 0;
    while i < m
        invariant
            i <= m <= n,
            n == s@.len(),
            m == p@.len(),
            sv@ == s@,
            forall|j: int| 0 <= j < i ==> s@[j] == p@[j],
        decreases m - i,
    {
        if sv.get_char(i) != p.get_char(i) {
            return false;
        }
        i = i + 1;
    }
    assert(s@.subrange(0, m as int) =~= p@);
    true
}

/// Equality of a string and a string literal.
pub fn string_is(s: &String, lit: &str) -> (r: bool)
    ensures
        r == (s@ == lit@),
{
    let l = String::from_str(lit);
    *s == l
}

/// A decimal rendering has at least one character.
pub proof fn lemma_nat_decimal_len(n: nat)
    ensures
        nat_decimal(n).len() >= 1,
        n >= 10 ==> nat_decimal(n).len() >= 2,
    decreases n,
{
    if n >= 10 {
        lemma_nat_decimal_len(n / 10);
    }
}

/// The characters of a decimal rendering are digits.
pub proof fn lemma_nat_decimal_digits(n: nat)
    ensures
        forall|k: int| 0 <= k < nat_decimal(n).len() ==> {
            let c = #[trigger] nat_decimal(n)[k];
            '0' <= c && c <= '9'
        },
    decreases n,
{
    if n >= 10 {
        lemma_nat_decimal_digits(n / 10);
        let r = nat_decimal(n / 10);
        assert forall|k: int| 0 <= k < nat_decimal(n).len() implies {
            let c = #[trigger] nat_decimal(n)[k];
            '0' <= c && c <= '9'
        } by {
            if k < r.len() {
                assert(nat_decimal(n)[k] == r[k]);
            }
        }
    }
}

/// Different numbers have different decimal renderings.
pub proof fn lemma_nat_decimal_injective(n: nat, m: nat)
    requires
        nat_decimal(n) == nat_decimal(m),
    ensures
        n == m,
    decreases n,
{
    lemma_nat_decimal_len(n);
    lemma_nat_decimal_len(m);
    if n < 10 && m < 10 {
        assert(nat_decimal(n)[0] == digit_char(n as int));
        assert(nat_decimal(m)[0] == digit_char(m as int));
    } else if n >= 10 && m >= 10 {
        let a = nat_decimal(n / 10);
        let b = nat_decimal(m / 10);
        assert(nat_decimal(n).last() == digit_char((n % 10) as int));
        assert(nat_decimal(m).last() == digit_char((m % 10) as int));
        assert(nat_decimal(n).drop_last() =~= a);
        assert(nat_decimal(m).drop_last() =~= b);
        lemma_nat_decimal_injective(n / 10, m / 10);
    }
}

/// The characters of a decimal rendering: a `-` only in front, digits otherwise.
pub proof fn lemma_int_decimal_chars(i: int)
    ensures
        int_decimal(i).len() >= 1,
        forall|k: int| 0 <= k < int_decimal(i).len() ==> #[trigger] int_decimal(i)[k] != '_',
        (int_decimal(i)[0] == '-') == (i < 0),
{
    if i < 0 {
        lemma_nat_decimal_digits((-i) as nat);
        lemma_nat_decimal_len((-i) as nat);
        let r = nat_decimal((-i) as nat);
        assert forall|k: int| 0 <= k < int_decimal(i).len() implies #[trigger] int_decimal(i)[k] != '_' by {
            if k > 0 {
                assert(int_decimal(i)[k] == r[k - 1]);
            }
        }
    } else {
        lemma_nat_decimal_digits(i as nat);
        lemma_nat_decimal_len(i as nat);
        assert(int_decimal(i) == nat_decimal(i as nat));
    }
}

/// Different integers have different decimal renderings.
pub proof fn lemma_int_decimal_injective(i: int, j: int)
    requires
        int_decimal(i) == int_decimal(j),
    ensures
        i == j,
{
    lemma_int_decimal_chars(i);
    lemma_int_decimal_chars(j);
    if i < 0 {
        assert(int_decimal(i).drop_first() =~= nat_decimal((-i) as nat));
        assert(int_decimal(j).drop_first() =~= nat_decimal((-j) as nat));
        lemma_nat_decimal_injective((-i) as nat, (-j) as nat);
    } else {
        lemma_nat_decimal_injective(i as nat, j as nat);
    }
}

/// In `p + d + q` with `d` free of `_` and `q` starting with `_`, the part `d`
/// is determined: it ends before the first `_` after `p`.
pub proof fn lemma_split_at_underscore(p: Seq<char>, d: Seq<char>, q: Seq<char>, d2: Seq<char>, q2: Seq<char>)
    requires
        p + d + q == p + d2 + q2,
        forall|k: int| 0 <= k < d.len() ==> #[trigger] d[k] != '_',
        forall|k: int| 0 <= k < d2.len() ==> #[trigger] d2[k] != '_',
        q.len() > 0 && q[0] == '_',
        q2.len() > 0 && q2[0] == '_',
    ensures
        d == d2,
        q == q2,
{
    let l = p + d + q;
    if d.len() < d2.len() {
        assert(l[(p.len() + d.len()) as int] == q[0]);
        assert((p + d2 + q2)[(p.len() + d.len()) as int] == d2[d.len() as int]);
    } else if d2.len() < d.len() {
        assert(l[(p.len() + d2.len()) as int] == d[d2.len() as int]);
        assert((p + d2 + q2)[(p.len() + d2.len()) as int] == q2[0]);
    } else {
        assert forall|k: int| 0 <= k < d.len() implies d[k] == d2[k] by {
            assert(l[p.len() + k] == d[k]);
            assert((p + d2 + q2)[p.len() + k] == d2[k]);
        }
        assert(d =~= d2);
        assert(d.len() == d2.len());
        assert((p + d + q).len() == (p + d2 + q2).len());
        assert((p + d + q).len() == p.len() + d.len() + q.len());
        assert((p + d2 + q2).len() == p.len() + d2.len() + q2.len());
        assert(q.len() == q2.len());
        assert forall|k: int| 0 <= k < q.len() implies q[k] == q2[k] by {
            assert(l[p.len() + d.len() + k] == q[k]);
            assert((p + d2 + q2)[p.len() + d.len() + k] == q2[k]);
        }
        assert(q =~= q2);
    }
}

} // verus!
