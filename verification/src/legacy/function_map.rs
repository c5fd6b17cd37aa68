//! The first form of wrapper generation: a map from each function to the numbers
//! of its incoming arcs and of the arcs at each of its output positions, and the
//! wrapper text built from one entry of it.
use vstd::prelude::*;
use crate::legacy::types::{Arc, ArcIdentifier, OhuaData, Operator, ValueType};
use crate::legacy::wrappers::{count_of, input_count, leaves, source_port};
use crate::legacy::wrapper_code::{call_args, call_args_text, joined_path, join_path, unpack_args, unpack_args_text};
use crate::legacy::wrapper_file::sfn_name;
use crate::order::{sorted_unique, str_lt, sort_dedup_strings};
use crate::seqs::{ints_i32, lemma_filter_step, lemma_ints_i32_roundtrip, lemma_to_set_push, sorted_set_i32, strictly_sorted, lemma_sorted_set_is};
use crate::template::{replaced, repeated, replace_str, repeat_str};
use crate::text::{nat_decimal, usize_to_string};

verus! {

/// An output position: the port, or `0` for the single output `-1`.
pub open spec fn position(i: i32) -> i32 {
    if i >= 0 { i } else { 0 }
}

/// The output positions of the arcs that leave operator `id`, in order, and that
/// of the return arc if it leaves there.
pub open spec fn dfg_positions(id: i32, arcs: Seq<Arc>, ret: ArcIdentifier) -> Seq<i32> {
    arcs.filter(|a: Arc| leaves(a, id)).map_values(|a: Arc| position(source_port(a)))
        + if ret.operator == id { seq![position(ret.index)] } else { Seq::<i32>::empty() }
}

/// For each output position, in increasing order, the number of arcs at it.
pub open spec fn position_counts(ps: Seq<i32>) -> Seq<usize> {
    sorted_set_i32(ps).map_values(|p: i32| count_of(ps, p) as usize)
}

/// The entry of an operator: its function's path, the number of incoming arcs,
/// the arc counts of its output positions, and its id.
pub open spec fn op_entry(op: Operator, arcs: Seq<Arc>, ret: ArcIdentifier) -> (Seq<char>, (nat, Seq<usize>, i32)) {
    (
        sfn_name(op.operatorType),
        (input_count(op.operatorId, arcs), position_counts(dfg_positions(op.operatorId, arcs, ret)), op.operatorId),
    )
}

/// The contents of an entry.
pub open spec fn entry_view(e: (String, (usize, Vec<usize>, i32))) -> (Seq<char>, (nat, Seq<usize>, i32)) {
    (e.0@, (e.1.0 as nat, e.1.1@, e.1.2))
}

/// The arc counts of the output positions seen so far, by increasing position.
pub open spec fn counted(out: Seq<(i32, usize)>, ps: Seq<i32>) -> bool {
    let keys = out.map_values(|e: (i32, usize)| e.0);
    &&& strictly_sorted(ints_i32(keys))
    &&& ints_i32(keys).to_set() == ints_i32(ps).to_set()
    &&& forall|k: int| 0 <= k < out.len() ==> (#[trigger] out[k]).1 == count_of(ps, out[k].0)
}

proof fn lemma_count_absent(ps: Seq<i32>, v: i32)
    requires
        !ps.contains(v),
    ensures
        count_of(ps, v) == 0,
    decreases ps.len(),
{
    if ps.len() > 0 {
        assert(!ps.drop_last().contains(v)) by {
            if ps.drop_last().contains(v) {
                let k = choose|k: int| 0 <= k < ps.drop_last().len() && ps.drop_last()[k] == v;
                assert(ps[k] == v);
            }
        }
        lemma_count_absent(ps.drop_last(), v);
        assert(ps[ps.len() - 1] != v);
    }
}

proof fn lemma_count_bound(ps: Seq<i32>, v: i32)
    ensures
        count_of(ps, v) <= ps.len(),
    decreases ps.len(),
{
    if ps.len() > 0 {
        lemma_count_bound(ps.drop_last(), v);
    }
}

/// Counts one more arc at output position `p`.
fn count_position(out: &mut Vec<(i32, usize)>, p: i32, Ghost(ps): Ghost<Seq<i32>>)
    requires
        counted(old(out)@, ps),
        ps.len() < usize::MAX,
    ensures
        counted(final(out)@, ps.push(p)),
{
    let ghost qs = ps.push(p);
    let ghost f = |e: (i32, usize)| e.0;
    let ghost o = out@;
    let ghost keys = o.map_values(f);
    assert(qs.drop_last() =~= ps);
    let n = out.len();
    let mut i: usize = 0;
    while i < n && out[i].0 < p
        invariant
            i <= n,
            n == out@.len(),
            out@ == o,
            forall|k: int| 0 <= k < i ==> out@[k].0 < p,
        decreases n - i,
    {
        i = i + 1;
    }
    proof {
        lemma_to_set_push(ints_i32(ps), p as int);
        assert(ints_i32(qs) =~= ints_i32(ps).push(p as int));
    }
    if i < n && out[i].0 == p {
        let c = out[i].1;
        proof {
            lemma_count_bound(ps, p);
        }
        out.set(i, (p, c + 1));
        proof {
            assert(out@.map_values(f) =~= keys);
            assert(ints_i32(keys).to_set().contains(p as int)) by {
                assert(ints_i32(keys)[i as int] == p as int);
            }
            assert(ints_i32(keys).to_set() =~= ints_i32(qs).to_set());
            assert(count_of(qs, p) == count_of(ps, p) + 1);
            assert forall|k: int| 0 <= k < out@.len() implies (#[trigger] out@[k]).1 == count_of(qs, out@[k].0) by {
                if k != i {
                    assert(out@[k] == o[k]);
                    if k < i {
                        assert(ints_i32(keys)[k] < ints_i32(keys)[i as int]);
                    } else {
                        assert(ints_i32(keys)[i as int] < ints_i32(keys)[k]);
                    }
                    assert(o[k].0 != p);
                    assert(count_of(qs, o[k].0) == count_of(ps, o[k].0));
                }
            }
        }
    } else {
        proof {
            if ps.contains(p) {
                let w = choose|w: int| 0 <= w < ps.len() && ps[w] == p;
                assert(ints_i32(ps)[w] == p as int);
                assert(ints_i32(ps).to_set().contains(p as int));
                assert(ints_i32(keys).to_set().contains(p as int));
                let k = choose|k: int| 0 <= k < ints_i32(keys).len() && ints_i32(keys)[k] == p as int;
                if k < i {
                    assert(o[k].0 < p);
                } else if k > i {
                    assert(ints_i32(keys)[i as int] < ints_i32(keys)[k]);
                }
            }
            lemma_count_absent(ps, p);
            assert(!ints_i32(keys).to_set().contains(p as int)) by {
                if ints_i32(keys).to_set().contains(p as int) {
                    assert(ints_i32(ps).to_set().contains(p as int));
                    let w = choose|w: int| 0 <= w < ints_i32(ps).len() && ints_i32(ps)[w] == p as int;
                    assert(ps[w] == p);
                    assert(ps.contains(p));
                }
            }
        }
        out.insert(i, (p, 1));
        proof {
            let nk = out@.map_values(f);
            assert(nk =~= keys.insert(i as int, p));
            assert(ints_i32(nk) =~= ints_i32(keys).insert(i as int, p as int));
            assert forall|a: int, b: int| 0 <= a < b < ints_i32(nk).len() implies ints_i32(nk)[a] < ints_i32(nk)[b] by {
                if b < i {
                    assert(ints_i32(keys)[a] < ints_i32(keys)[b]);
                } else if b == i {
                    assert(o[a].0 < p);
                } else if a < i {
                    assert(o[a].0 < p);
                    if i < n {
                        assert(!(o[i as int].0 < p));
                        if b - 1 > i {
                            assert(ints_i32(keys)[i as int] < ints_i32(keys)[b - 1]);
                        }
                    }
                } else if a == i {
                    assert(!(o[i as int].0 < p));
                    assert(o[i as int].0 != p);
                    if b - 1 > i {
                        assert(ints_i32(keys)[i as int] < ints_i32(keys)[b - 1]);
                    }
                } else {
                    assert(ints_i32(keys)[a - 1] < ints_i32(keys)[b - 1]);
                }
            }
            assert forall|y: int| ints_i32(nk).to_set().contains(y) <==> ints_i32(qs).to_set().contains(y) by {
                if ints_i32(nk).to_set().contains(y) {
                    let w = choose|w: int| 0 <= w < ints_i32(nk).len() && ints_i32(nk)[w] == y;
                    if w < i {
                        assert(ints_i32(keys)[w] == y);
                        assert(ints_i32(keys).to_set().contains(y));
                    } else if w > i {
                        assert(ints_i32(keys)[w - 1] == y);
                        assert(ints_i32(keys).to_set().contains(y));
                    }
                }
                if ints_i32(keys).to_set().contains(y) {
                    let w = choose|w: int| 0 <= w < ints_i32(keys).len() && ints_i32(keys)[w] == y;
                    if w < i {
                        assert(ints_i32(nk)[w] == y);
                    } else {
                        assert(ints_i32(nk)[w + 1] == y);
                    }
                }
                if y == p as int {
                    assert(ints_i32(nk)[i as int] == y);
                }
            }
            assert(ints_i32(nk).to_set() =~= ints_i32(qs).to_set());
            assert forall|k: int| 0 <= k < out@.len() implies (#[trigger] out@[k]).1 == count_of(qs, out@[k].0) by {
                if k < i {
                    assert(out@[k] == o[k]);
                    assert(o[k].0 != p);
                } else if k > i {
                    assert(out@[k] == o[k - 1]);
                    assert(ints_i32(keys)[k - 1] == o[k - 1].0 as int);
                    assert(ints_i32(keys).to_set().contains(ints_i32(keys)[k - 1]));
                    assert(o[k - 1].0 != p);
                }
            }
        }
    }
}

/// The counts of `out`, in order.
fn counts_of(out: &Vec<(i32, usize)>, Ghost(ps): Ghost<Seq<i32>>) -> (r: Vec<usize>)
    requires
        counted(out@, ps),
    ensures
        r@ == position_counts(ps),
{
    let ghost keys = out@.map_values(|e: (i32, usize)| e.0);
    proof {
        lemma_sorted_set_is(ints_i32(ps), ints_i32(keys));
        lemma_ints_i32_roundtrip(keys);
        assert(sorted_set_i32(ps) == keys);
    }
    let n = out.len();
    let mut r: Vec<usize> = Vec::new();
    let mut i: usize = 0;
    while i < n
        invariant
            i <= n,
            n == out@.len(),
            keys == out@.map_values(|e: (i32, usize)| e.0),
            sorted_set_i32(ps) == keys,
            counted(out@, ps),
            r@ == keys.subrange(0, i as int).map_values(|p: i32| count_of(ps, p) as usize),
        decreases n - i,
    {
        r.push(out[i].1);
        assert(keys[i as int] == out@[i as int].0);
        assert(r@ =~= keys.subrange(0, (i + 1) as int).map_values(|p: i32| count_of(ps, p) as usize));
        i = i + 1;
    }
    assert(keys.subrange(0, n as int) =~= keys);
    r
}

/// The entry of one operator.
fn operator_entry(op: &Operator, arcs: &Vec<Arc>, return_arc: &ArcIdentifier) -> (r: (String, (usize, Vec<usize>, i32)))
    requires
        op.operatorType.qbNamespace@.len() > 0,
        arcs@.len() + 1 < usize::MAX,
    ensures
        entry_view(r) == op_entry(*op, arcs@, *return_arc),
{
    let id = op.operatorId;
    let ghost lp = |a: Arc| leaves(a, id);
    let ghost tp = |a: Arc| a.target.operator == id;
    let ghost g = |a: Arc| position(source_port(a));
    let n = arcs.len();
    let mut in_count: usize = 0;
    let mut out: Vec<(i32, usize)> = Vec::new();
    let mut i: usize = 0;
    proof {
        assert(arcs@.subrange(0, 0).filter(lp).map_values(g) =~= Seq::<i32>::empty());
        assert(ints_i32(Seq::<i32>::empty()) =~= Seq::<int>::empty());
        assert(ints_i32(out@.map_values(|e: (i32, usize)| e.0)) =~= Seq::<int>::empty());
    }
    while i < n
        invariant
            i <= n,
            n == arcs@.len(),
            n + 1 < usize::MAX,
            lp == (|a: Arc| leaves(a, id)),
            tp == (|a: Arc| a.target.operator == id),
            g == (|a: Arc| position(source_port(a))),
            in_count == arcs@.subrange(0, i as int).filter(tp).len(),
            in_count <= i,
            counted(out@, arcs@.subrange(0, i as int).filter(lp).map_values(g)),
        decreases n - i,
    {
        proof {
            lemma_filter_step(arcs@, tp, i as int);
            lemma_filter_step(arcs@, lp, i as int);
        }
        let arc = &arcs[i];
        if arc.target.operator == id {
            in_count = in_count + 1;
        }
        let ghost ps = arcs@.subrange(0, i as int).filter(lp).map_values(g);
        proof {
            arcs@.subrange(0, i as int).lemma_filter_len(lp);
        }
        match arc.source.val {
            ValueType::LocalVal(src) => {
                if src.operator == id {
                    let index: i32 = if src.index >= 0 { src.index } else { 0 };
                    count_position(&mut out, index, Ghost(ps));
                    assert(arcs@.subrange(0, (i + 1) as int).filter(lp).map_values(g) =~= ps.push(index));
                }
            },
            ValueType::EnvironmentVal(_) => {},
        }
        i = i + 1;
    }
    assert(arcs@.subrange(0, n as int) =~= arcs@);
    let ghost ps = arcs@.filter(lp).map_values(g);
    proof { arcs@.lemma_filter_len(lp); }
    if return_arc.operator == id {
        let index: i32 = if return_arc.index >= 0 { return_arc.index } else { 0 };
        count_position(&mut out, index, Ghost(ps));
        assert(dfg_positions(id, arcs@, *return_arc) =~= ps.push(index));
    } else {
        assert(dfg_positions(id, arcs@, *return_arc) =~= ps);
    }
    let counts = counts_of(&out, Ghost(dfg_positions(id, arcs@, *return_arc)));
    let ns = &op.operatorType.qbNamespace;
    let mut fn_name = String::new();
    fn_name.append(ns[ns.len() - 1].as_str());
    fn_name.append("::");
    fn_name.append(op.operatorType.qbName.as_str());
    assert(ns.deep_view().last() == ns@[ns@.len() - 1]@);
    (fn_name, (in_count, counts, id))
}

/// The contents of an entry of the map.
pub type EntryM = (Seq<char>, (nat, Seq<usize>, i32));

/// The entries, in order, that no later entry for the same function replaces:
/// what a map keyed by the function holds after the entries were put in it one
/// after the other.
pub open spec fn last_entries(es: Seq<EntryM>) -> Seq<EntryM>
    decreases es.len(),
{
    if es.len() == 0 {
        es
    } else {
        let tail = es.subrange(1, es.len() as int);
        if exists|j: int| 0 <= j < tail.len() && (#[trigger] tail[j]).0 == es[0].0 {
            last_entries(tail)
        } else {
            seq![es[0]] + last_entries(tail)
        }
    }
}

/// Whether a later entry has the function of the first.
fn replaced_later(es: &Vec<(String, (usize, Vec<usize>, i32))>) -> (r: bool)
    requires
        es@.len() > 0,
    ensures
        r == exists|j: int| 1 <= j < es@.len() && (#[trigger] es@[j]).0@ == es@[0].0@,
{
    let n = es.len();
    let mut j: usize = 1;
    while j < n
        invariant
            1 <= j <= n,
            n == es@.len(),
            forall|q: int| 1 <= q < j ==> (#[trigger] es@[q]).0@ != es@[0].0@,
        decreases n - j,
    {
        if es[j].0 == es[0].0 {
            return true;
        }
        j = j + 1;
    }
    false
}

/// Keeps of the entries those that no later entry for the same function replaces.
fn keep_last_entries(entries: Vec<(String, (usize, Vec<usize>, i32))>) -> (r: Vec<(String, (usize, Vec<usize>, i32))>)
    ensures
        r@.map_values(|e: (String, (usize, Vec<usize>, i32))| entry_view(e))
            == last_entries(entries@.map_values(|e: (String, (usize, Vec<usize>, i32))| entry_view(e))),
{
    let ghost ev = |e: (String, (usize, Vec<usize>, i32))| entry_view(e);
    let ghost all = entries@.map_values(ev);
    let m = entries.len();
    let mut rest = entries;
    let mut kept: Vec<(String, (usize, Vec<usize>, i32))> = Vec::new();
    let mut i: usize = 0;
    assert(all.subrange(0, m as int) =~= all);
    assert(kept@.map_values(ev) + all =~= all);
    while i < m
        invariant
            i <= m,
            m == all.len(),
            ev == (|e: (String, (usize, Vec<usize>, i32))| entry_view(e)),
            rest@.map_values(ev) == all.subrange(i as int, m as int),
            kept@.map_values(ev) + last_entries(all.subrange(i as int, m as int)) == last_entries(all),
        decreases m - i,
    {
        let ghost es = all.subrange(i as int, m as int);
        let ghost tail = es.subrange(1, es.len() as int);
        assert(tail =~= all.subrange((i + 1) as int, m as int));
        assert(rest@.map_values(ev)[0] == ev(rest@[0]));
        let later = replaced_later(&rest);
        proof {
            if later {
                let j = choose|j: int| 1 <= j < rest@.len() && (#[trigger] rest@[j]).0@ == rest@[0].0@;
                assert(rest@.map_values(ev)[j] == ev(rest@[j]));
                assert(tail[j - 1].0 == es[0].0);
            } else {
                assert forall|j: int| 0 <= j < tail.len() implies (#[trigger] tail[j]).0 != es[0].0 by {
                    assert(rest@.map_values(ev)[j + 1] == ev(rest@[j + 1]));
                    assert(!(rest@[j + 1].0@ == rest@[0].0@));
                }
            }
        }
        let ghost before = rest@;
        let e = rest.remove(0);
        assert(rest@.map_values(ev) =~= tail) by {
            assert forall|q: int| 0 <= q < rest@.len() implies rest@.map_values(ev)[q] == tail[q] by {
                assert(rest@[q] == before[q + 1]);
                assert(before.map_values(ev)[q + 1] == ev(before[q + 1]));
            }
        }
        if !later {
            let ghost kv = kept@.map_values(ev);
            kept.push(e);
            assert(kept@.map_values(ev) =~= kv.push(ev(e)));
            assert(kv.push(ev(e)) + last_entries(tail) =~= kv + (seq![es[0]] + last_entries(tail)));
        }
        i = i + 1;
    }
    assert(all.subrange(m as int, m as int) =~= Seq::<EntryM>::empty());
    assert(kept@.map_values(ev) + Seq::<EntryM>::empty() =~= kept@.map_values(ev));
    kept
}

/// Analyses the graph: for each function, the entry of the last operator that
/// calls it (a later entry for the same function replaces an earlier one), in
/// the order of the operators, and the namespaces of all operators, each once,
/// in increasing order.
pub fn analyze_dfg(ohuadata: &OhuaData) -> (r: (Vec<(String, (usize, Vec<usize>, i32))>, Vec<String>))
    requires
        forall|k: int| 0 <= k < ohuadata.graph.operators@.len()
            ==> (#[trigger] ohuadata.graph.operators@[k]).operatorType.qbNamespace@.len() > 0,
        ohuadata.graph.arcs@.len() + 1 < usize::MAX,
    ensures
        r.0@.map_values(|e: (String, (usize, Vec<usize>, i32))| entry_view(e)) == last_entries(
            ohuadata.graph.operators@.map_values(|o: Operator| op_entry(o, ohuadata.graph.arcs@, ohuadata.graph.return_arc)),
        ),
        r.1.deep_view() == sorted_unique(
            ohuadata.graph.operators@.map_values(|o: Operator| joined_path(o.operatorType.qbNamespace.deep_view())),
            str_lt(),
        ),
{
    let ops = &ohuadata.graph.operators;
    let ghost jp = |o: Operator| joined_path(o.operatorType.qbNamespace.deep_view());
    let n = ops.len();
    let mut entries: Vec<(String, (usize, Vec<usize>, i32))> = Vec::new();
    let mut names: Vec<String> = Vec::new();
    let mut i: usize = 0;
    while i < n
        invariant
            i <= n,
            n == ops@.len(),
            ops == &ohuadata.graph.operators,
            jp == (|o: Operator| joined_path(o.operatorType.qbNamespace.deep_view())),
            forall|k: int| 0 <= k < n ==> (#[trigger] ops@[k]).operatorType.qbNamespace@.len() > 0,
            ohuadata.graph.arcs@.len() + 1 < usize::MAX,
            entries@.len() == i,
            forall|k: int| 0 <= k < i ==> entry_view(#[trigger] entries@[k])
                == op_entry(ops@[k], ohuadata.graph.arcs@, ohuadata.graph.return_arc),
            names.deep_view() == ops@.subrange(0, i as int).map_values(jp),
        decreases n - i,
    {
        let ghost prev = names.deep_view();
        let namespace = join_path(&ops[i].operatorType.qbNamespace);
        names.push(namespace);
        assert(names.deep_view() =~= prev.push(jp(ops@[i as int])));
        assert(ops@.subrange(0, (i + 1) as int).map_values(jp) =~= ops@.subrange(0, i as int).map_values(jp).push(jp(ops@[i as int])));
        let e = operator_entry(&ops[i], &ohuadata.graph.arcs, &ohuadata.graph.return_arc);
        entries.push(e);
        i = i + 1;
    }
    assert(ops@.subrange(0, n as int) =~= ops@);
    assert(entries@.map_values(|e: (String, (usize, Vec<usize>, i32))| entry_view(e))
        =~= ops@.map_values(|o: Operator| op_entry(o, ohuadata.graph.arcs@, ohuadata.graph.return_arc)));
    (keep_last_entries(entries), sort_dedup_strings(names))
}

/// The boxed result vector for element `index` of a returned tuple that `count`
/// arcs take: one clone for each of them, each followed by a comma.
pub open spec fn early_element_out(index: nat, count: nat) -> Seq<char> {
    if count > 1 {
        "vec!["@ + repeated("Box::from(Box::new(res."@ + nat_decimal(index) + ".clone())), "@, count) + "], "@
    } else {
        "vec!["@ + "Box::from(Box::new(res."@ + nat_decimal(index) + "))"@ + "], "@
    }
}

/// The boxed result vectors of all elements of a returned tuple.
pub open spec fn early_tuple_out(counts: Seq<usize>) -> Seq<char>
    decreases counts.len(),
{
    if counts.len() == 0 {
        Seq::empty()
    } else {
        early_tuple_out(counts.drop_last()) + early_element_out((counts.len() - 1) as nat, counts.last() as nat)
    }
}

/// The boxed result of a single value that `count` arcs take.
pub open spec fn early_single_out(count: nat) -> Seq<char> {
    if count > 1 {
        "vec!["@ + repeated("Box::from(Box::new(res.clone())), "@, count) + "]"@
    } else {
        "vec!["@ + repeated("Box::from(Box::new(res))"@, count) + "]"@
    }
}

/// The wrapper text of the first form: `{escaped_name}` becomes the name with
/// `::` turned into `_`, then `{incoming_args}`, `{name}` and `{fn_args}` are
/// filled in as in the later form; `{outgoing_args}` becomes the tuple's result
/// vectors when there are several output positions, the single value's vector
/// when there is one, and nothing (twice over) when there is none.
pub open spec fn spec_wrap_function(skeleton: Seq<char>, name: Seq<char>, incoming_arcs: nat, counts: Seq<usize>) -> Seq<char> {
    let s1 = replaced(skeleton, "{escaped_name}"@, replaced(name, "::"@, "_"@));
    let s2 = replaced(s1, "{incoming_args}"@, unpack_args(incoming_arcs));
    let s3 = replaced(replaced(s2, "{name}"@, name), "{fn_args}"@, call_args(incoming_arcs));
    if counts.len() > 1 {
        replaced(s3, "{outgoing_args}"@, early_tuple_out(counts))
    } else if counts.len() == 0 {
        replaced(replaced(s3, "{outgoing_args}"@, Seq::empty()), "{outgoing_args}"@, Seq::empty())
    } else {
        replaced(s3, "{outgoing_args}"@, early_single_out(counts[0] as nat))
    }
}

fn early_tuple_text(counts: &Vec<usize>) -> (r: String)
    ensures
        r@ == early_tuple_out(counts@),
{
    let n = counts.len();
    let mut s = String::new();
    let mut i: usize = 0;
    assert(counts@.subrange(0, 0) =~= Seq::<usize>::empty());
    while i < n
        invariant
            i <= n,
            n == counts@.len(),
            s@ == early_tuple_out(counts@.subrange(0, i as int)),
        decreases n - i,
    {
        let count = counts[i];
        let d = usize_to_string(i);
        let ghost before = s@;
        if count > 1 {
            let mut elem = String::new();
            elem.append("Box::from(Box::new(res.");
            elem.append(d.as_str());
            elem.append(".clone())), ");
            let cloned = repeat_str(elem.as_str(), count);
            s.append("vec![");
            s.append(cloned.as_str());
            s.append("], ");
        } else {
            s.append("vec![");
            s.append("Box::from(Box::new(res.");
            s.append(d.as_str());
            s.append("))");
            s.append("], ");
        }
        assert(s@ =~= before + early_element_out(i as nat, count as nat));
        assert(counts@.subrange(0, (i + 1) as int).drop_last() =~= counts@.subrange(0, i as int));
        i = i + 1;
    }
    assert(counts@.subrange(0, n as int) =~= counts@);
    s
}

/// Generates the wrapper of a function from the wrapper template `skeleton`: the
/// arguments are unboxed, the function called, and its results boxed into one
/// vector per output position, cloned where several arcs take them.
pub fn wrap_function(skeleton: &str, name: &str, incoming_arcs: usize, outgoing_arcs: Vec<usize>) -> (r: String)
    ensures
        r@ == spec_wrap_function(skeleton@, name@, incoming_arcs as nat, outgoing_arcs@),
{
    proof {
        reveal_strlit("::");
        reveal_strlit("{escaped_name}");
        reveal_strlit("{incoming_args}");
        reveal_strlit("{name}");
        reveal_strlit("{fn_args}");
        reveal_strlit("{outgoing_args}");
        reveal_strlit("");
        assert(""@ =~= Seq::<char>::empty());
    }
    let mangled = replace_str(name, "::", "_");
    let s1 = replace_str(skeleton, "{escaped_name}", mangled.as_str());
    let incoming = unpack_args_text(incoming_arcs);
    let s2 = replace_str(s1.as_str(), "{incoming_args}", incoming.as_str());
    let fn_args = call_args_text(incoming_arcs);
    let s3a = replace_str(s2.as_str(), "{name}", name);
    let s3 = replace_str(s3a.as_str(), "{fn_args}", fn_args.as_str());
    if outgoing_arcs.len() > 1 {
        let out = early_tuple_text(&outgoing_arcs);
        replace_str(s3.as_str(), "{outgoing_args}", out.as_str())
    } else if outgoing_arcs.len() == 0 {
        let once = replace_str(s3.as_str(), "{outgoing_args}", "");
        replace_str(once.as_str(), "{outgoing_args}", "")
    } else {
        let count = outgoing_arcs[0];
        let mut out = String::new();
        out.append("vec![");
        if count > 1 {
            let cloned = repeat_str("Box::from(Box::new(res.clone())), ", count);
            out.append(cloned.as_str());
        } else {
            let single = repeat_str("Box::from(Box::new(res))", count);
            out.append(single.as_str());
        }
        out.append("]");
        replace_str(s3.as_str(), "{outgoing_args}", out.as_str())
    }
}

} // verus!
