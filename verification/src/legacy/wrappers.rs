//! The analysis of the graph that precedes the generation of function wrappers:
//! how many values an operator takes and how it hands on its results.
use vstd::prelude::*;
use crate::legacy::types::{Arc, ArcIdentifier, ValueType};

verus! {

/// Data Type that describes the type of output an operator produces
pub enum Output {
    /// Only a single output is produced, which is denoted by port `-1` in the DFG dump
    Single(usize),
    /// The produced output is a tuple which is destructured into several ports
    Tuple(Vec<usize>),
}

/// How often `v` occurs in `s`.
pub open spec fn count_of(s: Seq<i32>, v: i32) -> nat
    decreases s.len(),
{
    if s.len() == 0 {
        0
    } else {
        count_of(s.drop_last(), v) + if s.last() == v { 1nat } else { 0nat }
    }
}

/// One more than the largest non-negative port, `0` if there is none: the width of
/// the tuple that the ports destructure.
pub open spec fn tuple_width(s: Seq<i32>) -> nat
    decreases s.len(),
{
    if s.len() == 0 {
        0
    } else {
        let w = tuple_width(s.drop_last());
        let p = s.last();
        if p >= 0 && p + 1 > w { (p + 1) as nat } else { w }
    }
}

/// The number of arcs at each position of the tuple.
pub open spec fn tuple_counts(s: Seq<i32>) -> Seq<usize> {
    Seq::new(tuple_width(s), |p: int| count_of(s, p as i32) as usize)
}

/// The arc leaves operator `id`.
pub open spec fn leaves(a: Arc, id: i32) -> bool {
    a.source.val matches ValueType::LocalVal(s) && s.operator == id
}

/// The port an arc leaves from.
pub open spec fn source_port(a: Arc) -> i32 {
    match a.source.val {
        ValueType::LocalVal(s) => s.index,
        _ => 0,
    }
}

/// The ports that results of operator `id` leave from: those of its outgoing arcs,
/// in order, and that of the return arc if it starts there.
pub open spec fn result_ports(id: i32, arcs: Seq<Arc>, return_arc: ArcIdentifier) -> Seq<i32> {
    arcs.filter(|a: Arc| leaves(a, id)).map_values(|a: Arc| source_port(a))
        + if return_arc.operator == id { seq![return_arc.index] } else { Seq::<i32>::empty() }
}

/// The number of arcs that end at operator `id`.
pub open spec fn input_count(id: i32, arcs: Seq<Arc>) -> nat {
    arcs.filter(|a: Arc| a.target.operator == id).len()
}

/// The results of an operator are either one value (port `-1`) or a tuple (ports
/// from `0`), never both, and no port is below `-1`.
pub open spec fn io_consistent(ports: Seq<i32>) -> bool {
    &&& forall|k: int| 0 <= k < ports.len() ==> #[trigger] ports[k] >= -1
    &&& !(count_of(ports, -1i32) > 0 && tuple_width(ports) > 0)
}

/// The inputs and the outputs of an operator: a single value used as often as there
/// are arcs from port `-1`, or a tuple with the number of uses of each element.
pub open spec fn spec_operator_io(id: i32, arcs: Seq<Arc>, return_arc: ArcIdentifier) -> (nat, bool, nat, Seq<usize>) {
    let ports = result_ports(id, arcs, return_arc);
    (input_count(id, arcs), count_of(ports, -1i32) > 0, count_of(ports, -1i32), tuple_counts(ports))
}

proof fn lemma_count_le(s: Seq<i32>, v: i32)
    ensures
        count_of(s, v) <= s.len(),
    decreases s.len(),
{
    if s.len() > 0 {
        lemma_count_le(s.drop_last(), v);
    }
}

proof fn lemma_width_le(s: Seq<i32>, p: int)
    requires
        0 <= p < s.len(),
        s[p] >= 0,
    ensures
        s[p] < tuple_width(s),
    decreases s.len(),
{
    if p < s.len() - 1 {
        lemma_width_le(s.drop_last(), p);
    }
}

proof fn lemma_width_bound(s: Seq<i32>)
    ensures
        tuple_width(s) <= i32::MAX as int + 1,
    decreases s.len(),
{
    if s.len() > 0 {
        lemma_width_bound(s.drop_last());
    }
}

proof fn lemma_count_beyond_width(s: Seq<i32>, p: int)
    requires
        p >= tuple_width(s),
        p <= i32::MAX,
    ensures
        count_of(s, p as i32) == 0,
    decreases s.len(),
{
    if s.len() > 0 {
        lemma_count_beyond_width(s.drop_last(), p);
    }
}

/// Counts one more result port.
fn add_port(single: &mut usize, mult: &mut Vec<usize>, port: i32, Ghost(ps): Ghost<Seq<i32>>)
    requires
        port >= -1,
        *old(single) == count_of(ps, -1i32),
        old(mult)@ == tuple_counts(ps),
        ps.len() < usize::MAX,
        forall|k: int| 0 <= k < ps.len() ==> #[trigger] ps[k] >= -1,
    ensures
        *final(single) == count_of(ps.push(port), -1i32),
        final(mult)@ == tuple_counts(ps.push(port)),
{
    let ghost qs = ps.push(port);
    assert(qs.drop_last() =~= ps);
    proof {
        lemma_count_le(ps, -1i32);
        lemma_width_bound(ps);
        lemma_width_bound(qs);
    }
    if port == -1 {
        *single = *single + 1;
        assert forall|p: int| 0 <= p < tuple_width(qs) implies #[trigger] tuple_counts(qs)[p] == mult@[p] by {
            assert(p <= i32::MAX);
            assert((p as i32) != -1i32);
            assert(count_of(qs, p as i32) == count_of(ps, p as i32));
        }
        assert(mult@ =~= tuple_counts(qs));
    } else {
        let p = port as usize;
        if mult.len() < p + 1 {
            mult.resize(p + 1, 0);
            proof {
                assert forall|q: int| old(mult)@.len() <= q < p + 1 implies mult@[q] == 0 by {
                    assert(cloned::<usize>(0, mult@[q]));
                    lemma_count_beyond_width(ps, q);
                }
            }
        }
        proof { lemma_count_le(ps, port); }
        let c = mult[p];
        assert(c == count_of(ps, port)) by {
            if p < old(mult)@.len() {
            } else {
                lemma_count_beyond_width(ps, p as int);
            }
        }
        mult.set(p, c + 1);
        assert(tuple_width(qs) == mult@.len());
        assert forall|q: int| 0 <= q < tuple_width(qs) implies #[trigger] tuple_counts(qs)[q] == mult@[q] by {
            assert(q <= i32::MAX);
            assert(count_of(qs, q as i32) == count_of(ps, q as i32) + if (q as i32) == port { 1nat } else { 0nat });
            if q < old(mult)@.len() {
                assert(tuple_counts(ps)[q] == count_of(ps, q as i32) as usize);
            } else if q != p {
                lemma_count_beyond_width(ps, q);
            } else {
                lemma_count_beyond_width(ps, q);
            }
        }
        assert(mult@ =~= tuple_counts(qs));
    }
}

/// Retrieves the I/O count for an operator, given its ID: the number of arcs into
/// it, and whether its results are one value or a tuple, with the number of uses
/// of the value or of each element of the tuple.
pub fn get_operator_io_by_id(id: i32, arcs: &Vec<Arc>, return_arc: &ArcIdentifier) -> (r: (usize, Output))
    requires
        arcs@.len() < usize::MAX,
        io_consistent(result_ports(id, arcs@, *return_arc)),
    ensures
        r.0 == spec_operator_io(id, arcs@, *return_arc).0,
        match r.1 {
            Output::Single(n) => spec_operator_io(id, arcs@, *return_arc).1
                && n == spec_operator_io(id, arcs@, *return_arc).2,
            Output::Tuple(v) => !spec_operator_io(id, arcs@, *return_arc).1
                && v@ == spec_operator_io(id, arcs@, *return_arc).3,
        },
{
    let ghost lp = |a: Arc| leaves(a, id);
    let ghost tp = |a: Arc| a.target.operator == id;
    let ghost all_ports = result_ports(id, arcs@, *return_arc);
    let mut inputs: usize = 0;
    let mut mult_outputs: Vec<usize> = Vec::new();
    let mut single_outputs: usize = 0;
    let n = arcs.len();
    let mut i: usize = 0;
    assert(mult_outputs@ =~= tuple_counts(arcs@.subrange(0, 0).filter(lp).map_values(|a: Arc| source_port(a))));
    while i < n
        invariant
            i <= n,
            n == arcs@.len(),
            n < usize::MAX,
            lp == (|a: Arc| leaves(a, id)),
            tp == (|a: Arc| a.target.operator == id),
            all_ports == result_ports(id, arcs@, *return_arc),
            io_consistent(all_ports),
            inputs == arcs@.subrange(0, i as int).filter(tp).len(),
            inputs <= i,
            single_outputs == count_of(arcs@.subrange(0, i as int).filter(lp).map_values(|a: Arc| source_port(a)), -1i32),
            mult_outputs@ == tuple_counts(arcs@.subrange(0, i as int).filter(lp).map_values(|a: Arc| source_port(a))),
        decreases n - i,
    {
        proof {
            crate::seqs::lemma_filter_step(arcs@, tp, i as int);
            crate::seqs::lemma_filter_step(arcs@, lp, i as int);
        }
        let arc = &arcs[i];
        if arc.target.operator == id {
            inputs = inputs + 1;
        }
        let ghost ps = arcs@.subrange(0, i as int).filter(lp).map_values(|a: Arc| source_port(a));
        match arc.source.val {
            ValueType::LocalVal(ident) => {
                if ident.operator == id {
                    proof {
                        let outs = arcs@.filter(lp).map_values(|a: Arc| source_port(a));
                        arcs@.lemma_filter_contains(lp, i as int);
                        let q = choose|q: int| 0 <= q < arcs@.filter(lp).len() && arcs@.filter(lp)[q] == arcs@[i as int];
                        assert(all_ports[q] == outs[q]);
                        assert(all_ports[q] == ident.index);
                        assert(forall|k: int| 0 <= k < ps.len() ==> #[trigger] ps[k] >= -1) by {
                            assert forall|k: int| 0 <= k < ps.len() implies #[trigger] ps[k] >= -1 by {
                                let pre = arcs@.subrange(0, i as int).filter(lp);
                                assert(pre.contains(pre[k]));
                                arcs@.subrange(0, i as int).lemma_filter_contains_rev(lp, pre[k]);
                                let w = choose|w: int| 0 <= w < i && arcs@.subrange(0, i as int)[w] == pre[k];
                                arcs@.lemma_filter_contains(lp, w);
                                let q2 = choose|q2: int| 0 <= q2 < arcs@.filter(lp).len() && arcs@.filter(lp)[q2] == arcs@[w];
                                assert(all_ports[q2] == outs[q2]);
                            }
                        }
                        assert(ps.len() <= i) by {
                            arcs@.subrange(0, i as int).lemma_filter_len(lp);
                        }
                    }
                    add_port(&mut single_outputs, &mut mult_outputs, ident.index, Ghost(ps));
                    proof {
                        assert(arcs@.subrange(0, (i + 1) as int).filter(lp).map_values(|a: Arc| source_port(a)) =~= ps.push(ident.index));
                    }
                }
            },
            _ => {},
        }
        i = i + 1;
    }
    assert(arcs@.subrange(0, n as int) =~= arcs@);
    let ghost ps = arcs@.filter(lp).map_values(|a: Arc| source_port(a));
    if return_arc.operator == id {
        proof {
            assert(all_ports =~= ps.push(return_arc.index));
            assert(all_ports[ps.len() as int] == return_arc.index);
            assert forall|k: int| 0 <= k < ps.len() implies #[trigger] ps[k] >= -1 by {
                assert(all_ports[k] == ps[k]);
            }
            arcs@.lemma_filter_len(lp);
        }
        add_port(&mut single_outputs, &mut mult_outputs, return_arc.index, Ghost(ps));
    } else {
        assert(all_ports =~= ps);
    }
    let outputs = if single_outputs > 0 { Output::Single(single_outputs) } else { Output::Tuple(mult_outputs) };
    (inputs, outputs)
}

} // verus!
