//! The channels of the runtime that the earlier generator writes: one for each
//! arc between operators, one for each input of the algorithm and one for its
//! result, with their ends placed at the operators' ports.
use vstd::prelude::*;
use std::sync::mpsc::{Receiver, Sender};
use crate::legacy::types::{Arc, ArcIdentifier, ValueType};
use crate::legacy::port_layout::{lemma_channel_ports, ports_hold};
use crate::legacy::templates::{recv_insert_pos, sender_pos, sorted_recv_insertion, sorted_sender_insertion};
use crate::runtime::new_channel;
use crate::text::string_is;

verus! {

/// The ports of an operator: those of its receivers in order, and those of its
/// senders in order, each with the number of senders at that port.
pub type PortLayout = (Seq<u32>, Seq<(u32, nat)>);

/// Where a receiver for port `t` goes: before the first receiver whose port is
/// at least `t`, or at the end.
pub open spec fn recv_pos(ports: Seq<u32>, t: u32) -> int
    decreases ports.len(),
{
    if ports.len() == 0 {
        0
    } else if ports[0] >= t {
        0
    } else {
        1 + recv_pos(ports.subrange(1, ports.len() as int), t)
    }
}

/// Where a sender for port `t` goes: before the first sender port that is at
/// least `t`, or at the end.
pub open spec fn send_pos(ports: Seq<(u32, nat)>, t: u32) -> int
    decreases ports.len(),
{
    if ports.len() == 0 {
        0
    } else if ports[0].0 >= t {
        0
    } else {
        1 + send_pos(ports.subrange(1, ports.len() as int), t)
    }
}

/// The sender ports after a sender for port `t` is added: one more sender at an
/// existing port `t`, or a new port `t` with one sender.
pub open spec fn send_after(ports: Seq<(u32, nat)>, t: u32) -> Seq<(u32, nat)> {
    let k = send_pos(ports, t);
    if k < ports.len() && ports[k].0 == t {
        ports.update(k, (t, ports[k].1 + 1))
    } else {
        ports.insert(k, (t, 1))
    }
}

/// A receiver for port `port` placed at operator `op` (numbered from 1); `None`
/// if there is no such operator.
pub open spec fn recv_step(l: Seq<PortLayout>, op: i32, port: u32) -> Option<Seq<PortLayout>> {
    let i = op - 1;
    if !(0 <= i < l.len()) {
        None
    } else {
        let ps = l[i].0;
        Some(l.update(i, (ps.insert(recv_pos(ps, port), port), l[i].1)))
    }
}

/// A sender for port `port` placed at operator `op`; `None` if there is no such operator.
pub open spec fn send_step(l: Seq<PortLayout>, op: i32, port: u32) -> Option<Seq<PortLayout>> {
    let i = op - 1;
    if !(0 <= i < l.len()) { None } else { Some(l.update(i, (l[i].0, send_after(l[i].1, port)))) }
}

/// The sending port of an arc that leaves port `idx`: `idx`, or `0` for the
/// single output `-1`.
pub open spec fn out_port(idx: i32) -> u32 {
    if idx >= 0 { idx as u32 } else { 0 }
}

/// The layout after the channels of the local arcs are placed, each arc's
/// receiver at its target and its sender at its source.
pub open spec fn arcs_layout(l: Option<Seq<PortLayout>>, arcs: Seq<Arc>) -> Option<Seq<PortLayout>>
    decreases arcs.len(),
{
    if arcs.len() == 0 {
        l
    } else {
        let prev = arcs_layout(l, arcs.drop_last());
        let a = arcs.last();
        if a.source.s_type@ != "local"@ {
            prev
        } else {
            match prev {
                None => None,
                Some(x) => match recv_step(x, a.target.operator, a.target.index as u32) {
                    None => None,
                    Some(y) => match a.source.val {
                        ValueType::LocalVal(s) => send_step(y, s.operator, out_port(s.index)),
                        ValueType::EnvironmentVal(_) => None,
                    },
                },
            }
        }
    }
}

/// The layout after the receivers of the algorithm's inputs are placed.
pub open spec fn inputs_layout(l: Option<Seq<PortLayout>>, ts: Seq<ArcIdentifier>) -> Option<Seq<PortLayout>>
    decreases ts.len(),
{
    if ts.len() == 0 {
        l
    } else {
        match inputs_layout(l, ts.drop_last()) {
            None => None,
            Some(x) => recv_step(x, ts.last().operator, ts.last().index as u32),
        }
    }
}

/// The layout of all channel ends: arcs, then inputs, then the result's sender at
/// the return arc; `None` where placing them panics.
pub open spec fn channel_layout(op_count: nat, arcs: Seq<Arc>, ret: ArcIdentifier, inputs: Seq<ArcIdentifier>) -> Option<Seq<PortLayout>> {
    let start = Seq::new(op_count, |i: int| (Seq::<u32>::empty(), Seq::<(u32, nat)>::empty()));
    match inputs_layout(arcs_layout(Some(start), arcs), inputs) {
        None => None,
        Some(l) => send_step(l, ret.operator, out_port(ret.index)),
    }
}

/// The ports of the channel ends of each operator.
pub open spec fn layout_of<T>(ch: Seq<(Vec<(u32, Receiver<T>)>, Vec<(u32, Vec<Sender<T>>)>)>) -> Seq<PortLayout> {
    ch.map_values(|c: (Vec<(u32, Receiver<T>)>, Vec<(u32, Vec<Sender<T>>)>)| (
        c.0@.map_values(|e: (u32, Receiver<T>)| e.0),
        c.1@.map_values(|e: (u32, Vec<Sender<T>>)| (e.0, e.1@.len())),
    ))
}

proof fn lemma_recv_pos<R>(recvs: Seq<(u32, R)>, t: u32)
    ensures
        recv_insert_pos(recvs, t) == recv_pos(recvs.map_values(|e: (u32, R)| e.0), t),
    decreases recvs.len(),
{
    let ports = recvs.map_values(|e: (u32, R)| e.0);
    if recvs.len() > 0 {
        let rest = recvs.subrange(1, recvs.len() as int);
        lemma_recv_pos(rest, t);
        assert(ports.subrange(1, ports.len() as int) =~= rest.map_values(|e: (u32, R)| e.0));
        if recvs[0].0 >= t {
            let k = choose|k: int| 0 <= k < recvs.len() && recvs[k].0 >= t
                && forall|j: int| 0 <= j < k ==> recvs[j].0 < t;
            assert(0 <= 0 < recvs.len() && recvs[0].0 >= t);
            if k > 0 {
                assert(recvs[0].0 < t);
            }
        } else {
            if exists|k: int| 0 <= k < recvs.len() && recvs[k].0 >= t {
                let k = choose|k: int| 0 <= k < recvs.len() && recvs[k].0 >= t
                    && forall|j: int| 0 <= j < k ==> recvs[j].0 < t;
                assert(exists|q: int| 0 <= q < recvs.len() && recvs[q].0 >= t && forall|j: int| 0 <= j < q ==> recvs[j].0 < t) by {
                    lemma_first_at_least(recvs, t);
                }
                assert(k > 0);
                assert(rest[k - 1] == recvs[k]);
                assert(forall|j: int| 0 <= j < k - 1 ==> rest[j].0 < t) by {
                    assert forall|j: int| 0 <= j < k - 1 implies rest[j].0 < t by {
                        assert(rest[j] == recvs[j + 1]);
                    }
                }
                let k2 = choose|k2: int| 0 <= k2 < rest.len() && rest[k2].0 >= t
                    && forall|j: int| 0 <= j < k2 ==> rest[j].0 < t;
                if k2 != k - 1 {
                    if k2 < k - 1 {
                        assert(rest[k2].0 < t);
                    } else {
                        assert(rest[k - 1].0 < t);
                    }
                }
            } else {
                assert forall|k: int| 0 <= k < rest.len() implies !(rest[k].0 >= t) by {
                    assert(rest[k] == recvs[k + 1]);
                }
            }
        }
    }
}

proof fn lemma_first_at_least<R>(recvs: Seq<(u32, R)>, t: u32)
    requires
        exists|k: int| 0 <= k < recvs.len() && recvs[k].0 >= t,
    ensures
        exists|q: int| 0 <= q < recvs.len() && recvs[q].0 >= t && forall|j: int| 0 <= j < q ==> recvs[j].0 < t,
    decreases recvs.len(),
{
    if recvs[0].0 >= t {
        assert(forall|j: int| 0 <= j < 0 ==> recvs[j].0 < t);
    } else {
        let rest = recvs.subrange(1, recvs.len() as int);
        let k = choose|k: int| 0 <= k < recvs.len() && recvs[k].0 >= t;
        assert(rest[k - 1] == recvs[k]);
        lemma_first_at_least(rest, t);
        let q = choose|q: int| 0 <= q < rest.len() && rest[q].0 >= t && forall|j: int| 0 <= j < q ==> rest[j].0 < t;
        assert(recvs[q + 1] == rest[q]);
        assert forall|j: int| 0 <= j < q + 1 implies recvs[j].0 < t by {
            if j > 0 {
                assert(recvs[j] == rest[j - 1]);
            }
        }
    }
}

proof fn lemma_send_pos<S>(senders: Seq<(u32, Vec<S>)>, t: u32)
    ensures
        sender_pos(senders, t) == send_pos(senders.map_values(|e: (u32, Vec<S>)| (e.0, e.1@.len())), t),
    decreases senders.len(),
{
    let ports = senders.map_values(|e: (u32, Vec<S>)| (e.0, e.1@.len()));
    if senders.len() > 0 {
        let rest = senders.subrange(1, senders.len() as int);
        lemma_send_pos(rest, t);
        assert(ports.subrange(1, ports.len() as int) =~= rest.map_values(|e: (u32, Vec<S>)| (e.0, e.1@.len())));
        if senders[0].0 >= t {
            let k = choose|k: int| 0 <= k < senders.len() && senders[k].0 >= t
                && forall|j: int| 0 <= j < k ==> senders[j].0 < t;
            assert(0 <= 0 < senders.len() && senders[0].0 >= t);
            if k > 0 {
                assert(senders[0].0 < t);
            }
        } else {
            if exists|k: int| 0 <= k < senders.len() && senders[k].0 >= t {
                let k = choose|k: int| 0 <= k < senders.len() && senders[k].0 >= t
                    && forall|j: int| 0 <= j < k ==> senders[j].0 < t;
                assert(exists|q: int| 0 <= q < senders.len() && senders[q].0 >= t && forall|j: int| 0 <= j < q ==> senders[j].0 < t) by {
                    lemma_first_sender(senders, t);
                }
                assert(k > 0);
                assert(rest[k - 1] == senders[k]);
                assert forall|j: int| 0 <= j < k - 1 implies rest[j].0 < t by {
                    assert(rest[j] == senders[j + 1]);
                }
                let k2 = choose|k2: int| 0 <= k2 < rest.len() && rest[k2].0 >= t
                    && forall|j: int| 0 <= j < k2 ==> rest[j].0 < t;
                if k2 != k - 1 {
                    if k2 < k - 1 {
                        assert(rest[k2].0 < t);
                    } else {
                        assert(rest[k - 1].0 < t);
                    }
                }
            } else {
                assert forall|k: int| 0 <= k < rest.len() implies !(rest[k].0 >= t) by {
                    assert(rest[k] == senders[k + 1]);
                }
            }
        }
    }
}

proof fn lemma_first_sender<S>(senders: Seq<(u32, Vec<S>)>, t: u32)
    requires
        exists|k: int| 0 <= k < senders.len() && senders[k].0 >= t,
    ensures
        exists|q: int| 0 <= q < senders.len() && senders[q].0 >= t && forall|j: int| 0 <= j < q ==> senders[j].0 < t,
    decreases senders.len(),
{
    if senders[0].0 >= t {
        assert(forall|j: int| 0 <= j < 0 ==> senders[j].0 < t);
    } else {
        let rest = senders.subrange(1, senders.len() as int);
        let k = choose|k: int| 0 <= k < senders.len() && senders[k].0 >= t;
        assert(rest[k - 1] == senders[k]);
        lemma_first_sender(rest, t);
        let q = choose|q: int| 0 <= q < rest.len() && rest[q].0 >= t && forall|j: int| 0 <= j < q ==> rest[j].0 < t;
        assert(senders[q + 1] == rest[q]);
        assert forall|j: int| 0 <= j < q + 1 implies senders[j].0 < t by {
            if j > 0 {
                assert(senders[j] == rest[j - 1]);
            }
        }
    }
}

/// The receivers and senders of each operator.
pub type OperatorChannels<T> = (Vec<(u32, Receiver<T>)>, Vec<(u32, Vec<Sender<T>>)>);

proof fn lemma_layout_update<T>(ch: Seq<OperatorChannels<T>>, i: int, c: OperatorChannels<T>)
    requires
        0 <= i < ch.len(),
    ensures
        layout_of(ch.update(i, c)) == layout_of(ch).update(i, layout_of(seq![c])[0]),
{
    assert(layout_of(ch.update(i, c)) =~= layout_of(ch).update(i, layout_of(seq![c])[0]));
}

/// Places a receiver for port `port` at operator `op`.
fn place_recv<T>(channels: &mut Vec<OperatorChannels<T>>, op: i32, port: u32, r: Receiver<T>)
    requires
        recv_step(layout_of(old(channels)@), op, port) is Some,
    ensures
        layout_of(final(channels)@) == recv_step(layout_of(old(channels)@), op, port)->0,
{
    let ghost ch0 = channels@;
    let i = (op - 1) as usize;
    let mut entry = channels.remove(i);
    proof { lemma_recv_pos(entry.0@, port); }
    let ghost before = entry;
    sorted_recv_insertion(&mut entry.0, r, port);
    proof {
        assert(entry.0@.map_values(|e: (u32, Receiver<T>)| e.0)
            =~= before.0@.map_values(|e: (u32, Receiver<T>)| e.0).insert(recv_insert_pos(before.0@, port), port));
    }
    channels.insert(i, entry);
    proof {
        assert(channels@ =~= ch0.update(i as int, entry));
        lemma_layout_update(ch0, i as int, entry);
        assert(ch0[i as int] == before);
        assert(layout_of(seq![entry])[0].1 =~= layout_of(ch0)[i as int].1);
        assert(layout_of(channels@) =~= recv_step(layout_of(ch0), op, port)->0);
    }
}

proof fn lemma_send_pos_bound(ports: Seq<(u32, nat)>, t: u32)
    ensures
        0 <= send_pos(ports, t) <= ports.len(),
    decreases ports.len(),
{
    if ports.len() > 0 {
        lemma_send_pos_bound(ports.subrange(1, ports.len() as int), t);
    }
}

/// The sender ports after `sorted_sender_insertion` are those `send_after` gives.
#[verifier::spinoff_prover]
#[verifier::rlimit(30)]
proof fn lemma_sender_ports<S>(before: Seq<(u32, Vec<S>)>, after: Seq<(u32, Vec<S>)>, port: u32)
    requires
        ({
            let k = sender_pos(before, port);
            if k < before.len() && before[k].0 == port {
                &&& after.len() == before.len()
                &&& after[k].0 == port
                &&& after[k].1@.len() == before[k].1@.len() + 1
                &&& forall|j: int| 0 <= j < before.len() && j != k ==> after[j] == before[j]
            } else {
                &&& after.len() == before.len() + 1
                &&& after[k].0 == port
                &&& after[k].1@.len() == 1
                &&& forall|j: int| 0 <= j < k ==> after[j] == before[j]
                &&& forall|j: int| k <= j < before.len() ==> after[j + 1] == before[j]
            }
        }),
    ensures
        after.map_values(|e: (u32, Vec<S>)| (e.0, e.1@.len()))
            == send_after(before.map_values(|e: (u32, Vec<S>)| (e.0, e.1@.len())), port),
{
    let f = |e: (u32, Vec<S>)| (e.0, e.1@.len());
    let old_ports = before.map_values(f);
    let new_ports = after.map_values(f);
    lemma_send_pos(before, port);
    let k = sender_pos(before, port);
    lemma_send_pos_bound(old_ports, port);
    if k < before.len() && before[k].0 == port {
        assert forall|q: int| 0 <= q < new_ports.len() implies new_ports[q] == old_ports.update(k, (port, old_ports[k].1 + 1))[q] by {
            if q != k {
                assert(after[q] == before[q]);
            }
        }
        assert(new_ports =~= old_ports.update(k, (port, old_ports[k].1 + 1)));
    } else {
        assert forall|q: int| 0 <= q < new_ports.len() implies new_ports[q] == old_ports.insert(k, (port, 1nat))[q] by {
            if q < k {
                assert(after[q] == before[q]);
            } else if q > k {
                assert(after[q] == before[q - 1]);
            }
        }
        assert(new_ports =~= old_ports.insert(k, (port, 1nat)));
    }
}

/// Places a sender for port `port` at operator `op`.
fn place_send<T>(channels: &mut Vec<OperatorChannels<T>>, op: i32, port: u32, s: Sender<T>)
    requires
        send_step(layout_of(old(channels)@), op, port) is Some,
    ensures
        layout_of(final(channels)@) == send_step(layout_of(old(channels)@), op, port)->0,
{
    let ghost ch0 = channels@;
    let i = (op - 1) as usize;
    let mut entry = channels.remove(i);
    let ghost before = entry;
    sorted_sender_insertion(&mut entry.1, s, port);
    proof { lemma_sender_ports(before.1@, entry.1@, port); }
    channels.insert(i, entry);
    proof {
        assert(channels@ =~= ch0.update(i as int, entry));
        lemma_layout_update(ch0, i as int, entry);
        assert(ch0[i as int] == before);
        assert(layout_of(seq![entry])[0].0 =~= layout_of(ch0)[i as int].0);
        assert(layout_of(channels@) =~= send_step(layout_of(ch0), op, port)->0);
    }
}

/// Creates the channels of the runtime and places their ends at the operators'
/// ports: for each local arc a channel from its source to its target, for each
/// input of the algorithm a channel whose sender is returned first, and a
/// channel for the result, whose sender goes to the return arc's operator and
/// whose receiver is returned last. Each operator then has a receiver for each
/// local arc and each input that ends at it, ordered by port, and its senders
/// grouped by port in increasing order (`ports_hold`).
pub fn generate_channels<T>(op_count: usize, arcs: &Vec<Arc>, return_arc: &ArcIdentifier, input_targets: &Vec<ArcIdentifier>)
    -> (r: (Vec<Sender<T>>, Vec<OperatorChannels<T>>, Receiver<T>))
    requires
        channel_layout(op_count as nat, arcs@, *return_arc, input_targets@) is Some,
    ensures
        r.0@.len() == input_targets@.len(),
        layout_of(r.1@) == channel_layout(op_count as nat, arcs@, *return_arc, input_targets@)->0,
        r.1@.len() == op_count,
        ports_hold(layout_of(r.1@), arcs@, input_targets@, seq![*return_arc]),
{
    let ghost start = Seq::new(op_count as nat, |i: int| (Seq::<u32>::empty(), Seq::<(u32, nat)>::empty()));
    let mut channels: Vec<OperatorChannels<T>> = Vec::new();
    let mut k: usize = 0;
    while k < op_count
        invariant
            k <= op_count,
            channels@.len() == k,
            start == Seq::new(op_count as nat, |i: int| (Seq::<u32>::empty(), Seq::<(u32, nat)>::empty())),
            layout_of(channels@) == start.subrange(0, k as int),
        decreases op_count - k,
    {
        let ghost prev = channels@;
        channels.push((Vec::new(), Vec::new()));
        proof {
            let e: OperatorChannels<T> = channels@[k as int];
            assert(e.0@.map_values(|x: (u32, Receiver<T>)| x.0) =~= Seq::<u32>::empty());
            assert(e.1@.map_values(|x: (u32, Vec<Sender<T>>)| (x.0, x.1@.len())) =~= Seq::<(u32, nat)>::empty());
            assert(layout_of(channels@) =~= start.subrange(0, (k + 1) as int));
        }
        k = k + 1;
    }
    assert(start.subrange(0, op_count as int) =~= start);
    let ghost full = channel_layout(op_count as nat, arcs@, *return_arc, input_targets@);
    let n = arcs.len();
    let mut i: usize = 0;
    assert(arcs@.subrange(0, 0) =~= Seq::<Arc>::empty());
    proof { lemma_arcs_layout_prefix(start, arcs@, input_targets@, *return_arc, op_count as nat); }
    while i < n
        invariant
            i <= n,
            n == arcs@.len(),
            start == Seq::new(op_count as nat, |i: int| (Seq::<u32>::empty(), Seq::<(u32, nat)>::empty())),
            full == channel_layout(op_count as nat, arcs@, *return_arc, input_targets@),
            full is Some,
            forall|j: int| 0 <= j <= n ==> #[trigger] arcs_layout(Some(start), arcs@.subrange(0, j)) is Some,
            arcs_layout(Some(start), arcs@.subrange(0, i as int)) == Some(layout_of(channels@)),
        decreases n - i,
    {
        let ghost next = arcs@.subrange(0, (i + 1) as int);
        assert(next.drop_last() =~= arcs@.subrange(0, i as int));
        assert(next.last() == arcs@[i as int]);
        assert(arcs_layout(Some(start), next) is Some);
        let arc = &arcs[i];
        if string_is(&arc.source.s_type, "local") {
            let (s, r) = new_channel::<T>();
            place_recv(&mut channels, arc.target.operator, arc.target.index as u32, r);
            match arc.source.val {
                ValueType::LocalVal(source) => {
                    let sender_index: u32 = if source.index >= 0 { source.index as u32 } else { 0 };
                    place_send(&mut channels, source.operator, sender_index, s);
                },
                ValueType::EnvironmentVal(_) => {
                    assert(false);
                },
            }
        }
        i = i + 1;
    }
    assert(arcs@.subrange(0, n as int) =~= arcs@);
    let mut input_chans: Vec<Sender<T>> = Vec::new();
    let m = input_targets.len();
    let mut j: usize = 0;
    let ghost after_arcs = arcs_layout(Some(start), arcs@);
    assert(input_targets@.subrange(0, 0) =~= Seq::<ArcIdentifier>::empty());
    proof { lemma_inputs_layout_prefix(after_arcs, input_targets@, *return_arc); }
    while j < m
        invariant
            j <= m,
            m == input_targets@.len(),
            input_chans@.len() == j,
            full == channel_layout(op_count as nat, arcs@, *return_arc, input_targets@),
            full is Some,
            after_arcs == arcs_layout(Some(start), arcs@),
            start == Seq::new(op_count as nat, |i: int| (Seq::<u32>::empty(), Seq::<(u32, nat)>::empty())),
            forall|q: int| 0 <= q <= m ==> #[trigger] inputs_layout(after_arcs, input_targets@.subrange(0, q)) is Some,
            inputs_layout(after_arcs, input_targets@.subrange(0, j as int)) == Some(layout_of(channels@)),
        decreases m - j,
    {
        let ghost next = input_targets@.subrange(0, (j + 1) as int);
        assert(next.drop_last() =~= input_targets@.subrange(0, j as int));
        assert(next.last() == input_targets@[j as int]);
        assert(inputs_layout(after_arcs, next) is Some);
        let target = &input_targets[j];
        let (sx, rx) = new_channel::<T>();
        place_recv(&mut channels, target.operator, target.index as u32, rx);
        input_chans.push(sx);
        j = j + 1;
    }
    assert(input_targets@.subrange(0, m as int) =~= input_targets@);
    let (s, output_port) = new_channel::<T>();
    let sender_index: u32 = if return_arc.index >= 0 { return_arc.index as u32 } else { 0 };
    place_send(&mut channels, return_arc.operator, sender_index, s);
    proof { lemma_channel_ports(op_count as nat, arcs@, *return_arc, input_targets@); }
    (input_chans, channels, output_port)
}

/// Where placing all arcs succeeds, placing each prefix of them does.
proof fn lemma_arcs_layout_prefix(start: Seq<PortLayout>, arcs: Seq<Arc>, inputs: Seq<ArcIdentifier>, ret: ArcIdentifier, op_count: nat)
    requires
        start == Seq::new(op_count, |i: int| (Seq::<u32>::empty(), Seq::<(u32, nat)>::empty())),
        channel_layout(op_count, arcs, ret, inputs) is Some,
    ensures
        forall|j: int| 0 <= j <= arcs.len() ==> #[trigger] arcs_layout(Some(start), arcs.subrange(0, j)) is Some,
{
    lemma_inputs_none(inputs);
    assert(arcs.subrange(0, arcs.len() as int) =~= arcs);
    assert forall|j: int| 0 <= j <= arcs.len() implies #[trigger] arcs_layout(Some(start), arcs.subrange(0, j)) is Some by {
        lemma_arcs_none_grows(start, arcs, j);
    }
}

proof fn lemma_arcs_none_grows(start: Seq<PortLayout>, arcs: Seq<Arc>, j: int)
    requires
        0 <= j <= arcs.len(),
        arcs_layout(Some(start), arcs) is Some,
    ensures
        arcs_layout(Some(start), arcs.subrange(0, j)) is Some,
    decreases arcs.len() - j,
{
    if j < arcs.len() {
        let next = arcs.subrange(0, j + 1);
        lemma_arcs_none_grows(start, arcs, j + 1);
        assert(next.drop_last() =~= arcs.subrange(0, j));
    } else {
        assert(arcs.subrange(0, j) =~= arcs);
    }
}

proof fn lemma_inputs_none(ts: Seq<ArcIdentifier>)
    ensures
        inputs_layout(None, ts) is None,
    decreases ts.len(),
{
    if ts.len() > 0 {
        lemma_inputs_none(ts.drop_last());
    }
}

/// Where placing all inputs succeeds, placing each prefix of them does.
proof fn lemma_inputs_layout_prefix(l: Option<Seq<PortLayout>>, ts: Seq<ArcIdentifier>, ret: ArcIdentifier)
    requires
        inputs_layout(l, ts) is Some,
    ensures
        forall|j: int| 0 <= j <= ts.len() ==> #[trigger] inputs_layout(l, ts.subrange(0, j)) is Some,
{
    assert forall|j: int| 0 <= j <= ts.len() implies #[trigger] inputs_layout(l, ts.subrange(0, j)) is Some by {
        lemma_inputs_grows(l, ts, j);
    }
}

proof fn lemma_inputs_grows(l: Option<Seq<PortLayout>>, ts: Seq<ArcIdentifier>, j: int)
    requires
        0 <= j <= ts.len(),
        inputs_layout(l, ts) is Some,
    ensures
        inputs_layout(l, ts.subrange(0, j)) is Some,
    decreases ts.len() - j,
{
    if j < ts.len() {
        let next = ts.subrange(0, j + 1);
        lemma_inputs_grows(l, ts, j + 1);
        assert(next.drop_last() =~= ts.subrange(0, j));
    } else {
        assert(ts.subrange(0, j) =~= ts);
    }
}

} // verus!
