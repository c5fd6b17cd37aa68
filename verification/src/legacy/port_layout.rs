//! The channel ends of each operator, stated per operator: its receivers hold
//! the ports of the arcs and inputs that end there, in order of port, and its
//! senders hold each port that arcs leave from, once, with the number of them.
use vstd::prelude::*;
use crate::legacy::types::{Arc, ArcIdentifier, ValueType};
use crate::legacy::channels::{
    arcs_layout, channel_layout, inputs_layout, out_port, recv_pos, recv_step, send_after, send_pos, send_step,
    PortLayout,
};

verus! {

/// The arc connects two operators.
pub open spec fn is_local(a: Arc) -> bool {
    a.source.s_type@ == "local"@
}

/// The target ports of the local arcs that end at operator `op`, in order.
pub open spec fn arc_recv_ports(op: int, arcs: Seq<Arc>) -> Seq<u32>
    decreases arcs.len(),
{
    if arcs.len() == 0 {
        Seq::empty()
    } else {
        let pre = arc_recv_ports(op, arcs.drop_last());
        let a = arcs.last();
        if is_local(a) && a.target.operator == op { pre.push(a.target.index as u32) } else { pre }
    }
}

/// The sending ports of the local arcs that leave operator `op`, in order.
pub open spec fn arc_send_ports(op: int, arcs: Seq<Arc>) -> Seq<u32>
    decreases arcs.len(),
{
    if arcs.len() == 0 {
        Seq::empty()
    } else {
        let pre = arc_send_ports(op, arcs.drop_last());
        let a = arcs.last();
        match a.source.val {
            ValueType::LocalVal(s) => if is_local(a) && s.operator == op { pre.push(out_port(s.index)) } else { pre },
            ValueType::EnvironmentVal(_) => pre,
        }
    }
}

/// The ports of the inputs that end at operator `op`, in order.
pub open spec fn input_ports(op: int, ts: Seq<ArcIdentifier>) -> Seq<u32>
    decreases ts.len(),
{
    if ts.len() == 0 {
        Seq::empty()
    } else {
        let pre = input_ports(op, ts.drop_last());
        if ts.last().operator == op { pre.push(ts.last().index as u32) } else { pre }
    }
}

/// The sending ports of the result arcs `rets` that leave operator `op`.
pub open spec fn result_ports(op: int, rets: Seq<ArcIdentifier>) -> Seq<u32>
    decreases rets.len(),
{
    if rets.len() == 0 {
        Seq::empty()
    } else {
        let pre = result_ports(op, rets.drop_last());
        if rets.last().operator == op { pre.push(out_port(rets.last().index)) } else { pre }
    }
}

/// `s` never decreases.
pub open spec fn nondecreasing(s: Seq<u32>) -> bool {
    forall|a: int, b: int| 0 <= a < b < s.len() ==> s[a] <= s[b]
}

/// The receivers' ports are `ports`, each as often as it occurs there, in
/// non-decreasing order.
pub open spec fn receivers_hold(rs: Seq<u32>, ports: Seq<u32>) -> bool {
    nondecreasing(rs) && rs.to_multiset() == ports.to_multiset()
}

/// The senders' ports are those of `ports`, each once and in increasing order,
/// each with the number of times it occurs in `ports`.
pub open spec fn senders_hold(ss: Seq<(u32, nat)>, ports: Seq<u32>) -> bool {
    &&& forall|a: int, b: int| 0 <= a < b < ss.len() ==> ss[a].0 < ss[b].0
    &&& forall|k: int| 0 <= k < ss.len() ==> (#[trigger] ss[k]).1 == ports.to_multiset().count(ss[k].0) && ss[k].1 > 0
    &&& forall|p: u32| ports.contains(p) ==> exists|k: int| 0 <= k < ss.len() && (#[trigger] ss[k]).0 == p
}

/// Each operator `i + 1` holds, at its receivers, the ports of the local arcs and
/// the inputs that end there, and at its senders the ports that local arcs and
/// the result arcs `rets` leave it from.
pub open spec fn ports_hold(l: Seq<PortLayout>, arcs: Seq<Arc>, inputs: Seq<ArcIdentifier>, rets: Seq<ArcIdentifier>) -> bool {
    forall|i: int| 0 <= i < l.len() ==> {
        &&& receivers_hold(#[trigger] l[i].0, arc_recv_ports(i + 1, arcs) + input_ports(i + 1, inputs))
        &&& senders_hold(l[i].1, arc_send_ports(i + 1, arcs) + result_ports(i + 1, rets))
    }
}

/// Every port before `recv_pos` is below `t`, the one at it is not.
proof fn lemma_recv_pos_props(ps: Seq<u32>, t: u32)
    ensures
        0 <= recv_pos(ps, t) <= ps.len(),
        forall|j: int| 0 <= j < recv_pos(ps, t) ==> ps[j] < t,
        recv_pos(ps, t) < ps.len() ==> ps[recv_pos(ps, t)] >= t,
    decreases ps.len(),
{
    if ps.len() > 0 && ps[0] < t {
        let rest = ps.subrange(1, ps.len() as int);
        lemma_recv_pos_props(rest, t);
        assert forall|j: int| 0 <= j < recv_pos(ps, t) implies ps[j] < t by {
            if j > 0 {
                assert(ps[j] == rest[j - 1]);
            }
        }
        if recv_pos(ps, t) < ps.len() {
            assert(ps[recv_pos(ps, t)] == rest[recv_pos(rest, t)]);
        }
    }
}

/// Every sender port before `send_pos` is below `t`, the one at it is not.
proof fn lemma_send_pos_props(ps: Seq<(u32, nat)>, t: u32)
    ensures
        0 <= send_pos(ps, t) <= ps.len(),
        forall|j: int| 0 <= j < send_pos(ps, t) ==> ps[j].0 < t,
        send_pos(ps, t) < ps.len() ==> ps[send_pos(ps, t)].0 >= t,
    decreases ps.len(),
{
    if ps.len() > 0 && ps[0].0 < t {
        let rest = ps.subrange(1, ps.len() as int);
        lemma_send_pos_props(rest, t);
        assert forall|j: int| 0 <= j < send_pos(ps, t) implies ps[j].0 < t by {
            if j > 0 {
                assert(ps[j] == rest[j - 1]);
            }
        }
        if send_pos(ps, t) < ps.len() {
            assert(ps[send_pos(ps, t)] == rest[send_pos(rest, t)]);
        }
    }
}

/// Placing a receiver for `t` keeps the receivers in order and adds `t` to them.
proof fn lemma_recv_insert(rs: Seq<u32>, ports: Seq<u32>, t: u32)
    requires
        receivers_hold(rs, ports),
    ensures
        receivers_hold(rs.insert(recv_pos(rs, t), t), ports.push(t)),
{
    broadcast use vstd::seq_lib::group_to_multiset_ensures;
    lemma_recv_pos_props(rs, t);
    let p = recv_pos(rs, t);
    let q = rs.insert(p, t);
    assert forall|a: int, b: int| 0 <= a < b < q.len() implies q[a] <= q[b] by {
        if b < p {
            assert(q[a] == rs[a] && q[b] == rs[b]);
        } else if b == p {
            assert(q[a] == rs[a]);
        } else if a < p {
            assert(q[a] == rs[a] && q[b] == rs[b - 1]);
            assert(rs[p] <= rs[b - 1]);
        } else if a == p {
            assert(q[b] == rs[b - 1]);
            assert(rs[p] <= rs[b - 1]);
        } else {
            assert(q[a] == rs[a - 1] && q[b] == rs[b - 1]);
        }
    }
    vstd::seq_lib::to_multiset_insert(rs, p, t);
}

/// Placing a sender for `t` keeps the sender ports in order and counts `t` once more.
proof fn lemma_send_insert(ss: Seq<(u32, nat)>, ports: Seq<u32>, t: u32)
    requires
        senders_hold(ss, ports),
    ensures
        senders_hold(send_after(ss, t), ports.push(t)),
{
    broadcast use vstd::seq_lib::group_to_multiset_ensures;
    lemma_send_pos_props(ss, t);
    let k = send_pos(ss, t);
    let np = ports.push(t);
    assert(np.to_multiset() =~= ports.to_multiset().insert(t));
    if k < ss.len() && ss[k].0 == t {
        let q = ss.update(k, (t, ss[k].1 + 1));
        assert(send_after(ss, t) == q);
        assert forall|j: int| 0 <= j < q.len() implies (#[trigger] q[j]).1 == np.to_multiset().count(q[j].0) && q[j].1 > 0 by {
            if j != k {
                assert(q[j] == ss[j]);
                assert(ss[j].0 != t) by {
                    if j < k { assert(ss[j].0 < ss[k].0); } else { assert(ss[k].0 < ss[j].0); }
                }
            }
        }
        assert forall|p: u32| np.contains(p) implies exists|j: int| 0 <= j < q.len() && (#[trigger] q[j]).0 == p by {
            if p == t {
                assert(q[k].0 == p);
            } else {
                let i = choose|i: int| 0 <= i < np.len() && np[i] == p;
                assert(ports[i] == p);
                assert(ports.contains(p));
                let j = choose|j: int| 0 <= j < ss.len() && (#[trigger] ss[j]).0 == p;
                assert(q[j].0 == p);
            }
        }
    } else {
        let q = ss.insert(k, (t, 1nat));
        assert(send_after(ss, t) == q);
        assert(!ports.contains(t)) by {
            if ports.contains(t) {
                let j = choose|j: int| 0 <= j < ss.len() && (#[trigger] ss[j]).0 == t;
                if j < k {
                    assert(ss[j].0 < t);
                } else if j > k {
                    assert(ss[k].0 < ss[j].0);
                }
            }
        }
        assert(ports.to_multiset().count(t) == 0);
        assert forall|a: int, b: int| 0 <= a < b < q.len() implies q[a].0 < q[b].0 by {
            if b < k {
                assert(q[a] == ss[a] && q[b] == ss[b]);
            } else if b == k {
                assert(q[a] == ss[a]);
            } else if a < k {
                assert(q[a] == ss[a] && q[b] == ss[b - 1]);
                if k < b - 1 { assert(ss[k].0 < ss[b - 1].0); }
            } else if a == k {
                assert(q[b] == ss[b - 1]);
                if k < b - 1 { assert(ss[k].0 < ss[b - 1].0); }
            } else {
                assert(q[a] == ss[a - 1] && q[b] == ss[b - 1]);
            }
        }
        assert forall|j: int| 0 <= j < q.len() implies (#[trigger] q[j]).1 == np.to_multiset().count(q[j].0) && q[j].1 > 0 by {
            if j < k {
                assert(q[j] == ss[j]);
            } else if j > k {
                assert(q[j] == ss[j - 1]);
                assert(ss[k].0 != t);
                if k < j - 1 { assert(ss[k].0 < ss[j - 1].0); }
            }
        }
        assert forall|p: u32| np.contains(p) implies exists|j: int| 0 <= j < q.len() && (#[trigger] q[j]).0 == p by {
            if p == t {
                assert(q[k].0 == p);
            } else {
                let i = choose|i: int| 0 <= i < np.len() && np[i] == p;
                assert(ports[i] == p);
                assert(ports.contains(p));
                let j = choose|j: int| 0 <= j < ss.len() && (#[trigger] ss[j]).0 == p;
                if j < k {
                    assert(q[j].0 == p);
                } else {
                    assert(q[j + 1].0 == p);
                }
            }
        }
    }
}

/// Operator `i + 1` holds, after the local arcs are placed from empty ports,
/// the ports of the arcs that end there and that leave from there.
proof fn lemma_arcs_ports_hold(start: Seq<PortLayout>, arcs: Seq<Arc>)
    requires
        forall|i: int| 0 <= i < start.len() ==> (#[trigger] start[i]).0.len() == 0 && start[i].1.len() == 0,
        arcs_layout(Some(start), arcs) is Some,
    ensures
        arcs_layout(Some(start), arcs)->0.len() == start.len(),
        ports_hold(arcs_layout(Some(start), arcs)->0, arcs, Seq::empty(), Seq::empty()),
    decreases arcs.len(),
{
    let no_ids = Seq::<ArcIdentifier>::empty();
    if arcs.len() == 0 {
        assert forall|i: int| 0 <= i < start.len() implies {
            &&& receivers_hold(#[trigger] start[i].0, arc_recv_ports(i + 1, arcs) + input_ports(i + 1, no_ids))
            &&& senders_hold(start[i].1, arc_send_ports(i + 1, arcs) + result_ports(i + 1, no_ids))
        } by {
            assert(arc_recv_ports(i + 1, arcs) + input_ports(i + 1, no_ids) =~= start[i].0);
            assert(arc_send_ports(i + 1, arcs) + result_ports(i + 1, no_ids) =~= Seq::<u32>::empty());
        }
    } else {
        let pre = arcs.drop_last();
        let a = arcs.last();
        lemma_arcs_ports_hold(start, pre);
        let x = arcs_layout(Some(start), pre)->0;
        if !is_local(a) {
            assert forall|i: int| 0 <= i < x.len() implies {
                &&& receivers_hold(#[trigger] x[i].0, arc_recv_ports(i + 1, arcs) + input_ports(i + 1, no_ids))
                &&& senders_hold(x[i].1, arc_send_ports(i + 1, arcs) + result_ports(i + 1, no_ids))
            } by {
                assert(arc_recv_ports(i + 1, arcs) == arc_recv_ports(i + 1, pre));
                assert(arc_send_ports(i + 1, arcs) == arc_send_ports(i + 1, pre));
            }
        } else {
            let port = a.target.index as u32;
            let y = recv_step(x, a.target.operator, port)->0;
            let src = a.source.val->LocalVal_0;
            let sp = out_port(src.index);
            let z = send_step(y, src.operator, sp)->0;
            assert(arcs_layout(Some(start), arcs) == Some(z));
            assert(y.len() == x.len() && z.len() == y.len());
            assert forall|i: int| 0 <= i < z.len() implies {
                &&& receivers_hold(#[trigger] z[i].0, arc_recv_ports(i + 1, arcs) + input_ports(i + 1, no_ids))
                &&& senders_hold(z[i].1, arc_send_ports(i + 1, arcs) + result_ports(i + 1, no_ids))
            } by {
                let rp = arc_recv_ports(i + 1, pre) + input_ports(i + 1, no_ids);
                let spp = arc_send_ports(i + 1, pre) + result_ports(i + 1, no_ids);
                assert(receivers_hold(x[i].0, rp));
                assert(senders_hold(x[i].1, spp));
                assert(z[i].0 == y[i].0);
                assert(y[i].1 == x[i].1);
                if i + 1 == a.target.operator {
                    lemma_recv_insert(x[i].0, rp, port);
                    assert(arc_recv_ports(i + 1, arcs) + input_ports(i + 1, no_ids) =~= rp.push(port));
                } else {
                    assert(arc_recv_ports(i + 1, arcs) + input_ports(i + 1, no_ids) =~= rp);
                }
                if i + 1 == src.operator {
                    lemma_send_insert(x[i].1, spp, sp);
                    assert(arc_send_ports(i + 1, arcs) + result_ports(i + 1, no_ids) =~= spp.push(sp));
                } else {
                    assert(arc_send_ports(i + 1, arcs) + result_ports(i + 1, no_ids) =~= spp);
                }
            }
        }
    }
}

/// Placing the inputs' receivers adds their ports at the operators they end at.
proof fn lemma_inputs_ports_hold(l0: Seq<PortLayout>, arcs: Seq<Arc>, ts: Seq<ArcIdentifier>)
    requires
        ports_hold(l0, arcs, Seq::empty(), Seq::empty()),
        inputs_layout(Some(l0), ts) is Some,
    ensures
        inputs_layout(Some(l0), ts)->0.len() == l0.len(),
        ports_hold(inputs_layout(Some(l0), ts)->0, arcs, ts, Seq::empty()),
    decreases ts.len(),
{
    let no_ids = Seq::<ArcIdentifier>::empty();
    if ts.len() == 0 {
        assert forall|i: int| 0 <= i < l0.len() implies {
            &&& receivers_hold(#[trigger] l0[i].0, arc_recv_ports(i + 1, arcs) + input_ports(i + 1, ts))
            &&& senders_hold(l0[i].1, arc_send_ports(i + 1, arcs) + result_ports(i + 1, no_ids))
        } by {
            assert(input_ports(i + 1, ts) == input_ports(i + 1, no_ids));
        }
    } else {
        let pre = ts.drop_last();
        let t = ts.last();
        lemma_inputs_ports_hold(l0, arcs, pre);
        let x = inputs_layout(Some(l0), pre)->0;
        let port = t.index as u32;
        let y = recv_step(x, t.operator, port)->0;
        assert(y.len() == x.len());
        assert forall|i: int| 0 <= i < y.len() implies {
            &&& receivers_hold(#[trigger] y[i].0, arc_recv_ports(i + 1, arcs) + input_ports(i + 1, ts))
            &&& senders_hold(y[i].1, arc_send_ports(i + 1, arcs) + result_ports(i + 1, no_ids))
        } by {
            let rp = arc_recv_ports(i + 1, arcs) + input_ports(i + 1, pre);
            assert(receivers_hold(x[i].0, rp));
            assert(y[i].1 == x[i].1);
            if i + 1 == t.operator {
                lemma_recv_insert(x[i].0, rp, port);
                assert(arc_recv_ports(i + 1, arcs) + input_ports(i + 1, ts) =~= rp.push(port));
            } else {
                assert(arc_recv_ports(i + 1, arcs) + input_ports(i + 1, ts) =~= rp);
            }
        }
    }
}

proof fn lemma_no_inputs_from_none(ts: Seq<ArcIdentifier>)
    ensures
        inputs_layout(None, ts) is None,
    decreases ts.len(),
{
    if ts.len() > 0 {
        lemma_no_inputs_from_none(ts.drop_last());
    }
}

/// Where the channel ends can be placed, each operator `i + 1` ends up with a
/// receiver for each local arc and each input that ends there, ordered by port,
/// and with its senders grouped by port in increasing order, one for each local
/// arc that leaves from that port and one for the result arc if it does.
pub proof fn lemma_channel_ports(op_count: nat, arcs: Seq<Arc>, ret: ArcIdentifier, inputs: Seq<ArcIdentifier>)
    requires
        channel_layout(op_count, arcs, ret, inputs) is Some,
    ensures
        channel_layout(op_count, arcs, ret, inputs)->0.len() == op_count,
        ports_hold(channel_layout(op_count, arcs, ret, inputs)->0, arcs, inputs, seq![ret]),
{
    let start = Seq::new(op_count, |i: int| (Seq::<u32>::empty(), Seq::<(u32, nat)>::empty()));
    lemma_no_inputs_from_none(inputs);
    assert(arcs_layout(Some(start), arcs) is Some);
    lemma_arcs_ports_hold(start, arcs);
    let x = arcs_layout(Some(start), arcs)->0;
    lemma_inputs_ports_hold(x, arcs, inputs);
    let y = inputs_layout(Some(x), inputs)->0;
    let sp = out_port(ret.index);
    let z = send_step(y, ret.operator, sp)->0;
    let no_ids = Seq::<ArcIdentifier>::empty();
    let rets = seq![ret];
    assert(rets.drop_last() =~= no_ids);
    assert(z.len() == y.len());
    assert forall|i: int| 0 <= i < z.len() implies {
        &&& receivers_hold(#[trigger] z[i].0, arc_recv_ports(i + 1, arcs) + input_ports(i + 1, inputs))
        &&& senders_hold(z[i].1, arc_send_ports(i + 1, arcs) + result_ports(i + 1, rets))
    } by {
        let spp = arc_send_ports(i + 1, arcs) + result_ports(i + 1, no_ids);
        assert(receivers_hold(y[i].0, arc_recv_ports(i + 1, arcs) + input_ports(i + 1, inputs)));
        assert(senders_hold(y[i].1, spp));
        assert(z[i].0 == y[i].0);
        if i + 1 == ret.operator {
            lemma_send_insert(y[i].1, spp, sp);
            assert(arc_send_ports(i + 1, arcs) + result_ports(i + 1, rets) =~= spp.push(sp));
        } else {
            assert(arc_send_ports(i + 1, arcs) + result_ports(i + 1, rets) =~= spp);
        }
    }
}

} // verus!
