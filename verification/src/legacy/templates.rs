//! The placement of the channel ends at the ports of the operators, as the
//! runtime that the earlier generator writes does it before it starts.
use vstd::prelude::*;

verus! {

/// The position at which `sorted_recv_insertion` inserts a receiver for port
/// `target`: that of the first entry whose port is at least `target`, or the
/// length when there is none.
pub open spec fn recv_insert_pos<R>(recvs: Seq<(u32, R)>, target: u32) -> int {
    if exists|k: int| 0 <= k < recvs.len() && recvs[k].0 >= target {
        choose|k: int| 0 <= k < recvs.len() && recvs[k].0 >= target
            && forall|j: int| 0 <= j < k ==> recvs[j].0 < target
    } else {
        recvs.len() as int
    }
}

/// Inserts the receiver of port `target` into the list of an operator's
/// receivers, kept sorted by port: before the first entry whose port is at least
/// `target`, or at the end.
pub fn sorted_recv_insertion<R>(recvs: &mut Vec<(u32, R)>, recv: R, target: u32)
    ensures
        0 <= recv_insert_pos(old(recvs)@, target) <= old(recvs)@.len(),
        final(recvs)@ == old(recvs)@.insert(recv_insert_pos(old(recvs)@, target), (target, recv)),
{
    let n = recvs.len();
    let mut index: usize = n;
    let mut i: usize = 0;
    let mut found = false;
    while !found && i < n
        invariant
            i <= n,
            n == recvs@.len(),
            recvs@ == old(recvs)@,
            forall|j: int| 0 <= j < i ==> recvs@[j].0 < target,
            found ==> i < n && recvs@[i as int].0 >= target && index == i,
            !found ==> index == n,
        decreases n - i + (if found { 0int } else { 1int }),
    {
        let ind = recvs[i].0;
        if ind >= target {
            index = i;
            found = true;
        } else {
            i = i + 1;
        }
    }
    proof {
        let s = recvs@;
        if found {
            let k = choose|k: int| 0 <= k < s.len() && s[k].0 >= target && forall|j: int| 0 <= j < k ==> s[j].0 < target;
            assert(0 <= i < s.len() && s[i as int].0 >= target && forall|j: int| 0 <= j < i ==> s[j].0 < target);
            if k != i as int {
                if k < i { assert(s[k].0 < target); } else { assert(s[i as int].0 >= target); }
            }
        } else {
            assert(!(exists|k: int| 0 <= k < s.len() && s[k].0 >= target));
        }
    }
    recvs.insert(index, (target, recv));
}

/// The position of the first entry whose port is at least `target`, or the length.
pub open spec fn sender_pos<S>(senders: Seq<(u32, Vec<S>)>, target: u32) -> int {
    if exists|k: int| 0 <= k < senders.len() && senders[k].0 >= target {
        choose|k: int| 0 <= k < senders.len() && senders[k].0 >= target
            && forall|j: int| 0 <= j < k ==> senders[j].0 < target
    } else {
        senders.len() as int
    }
}

/// Adds the sender of port `target` to the list of an operator's senders, kept
/// sorted by port: to the senders of that port if there are any, else as a new
/// entry before the first higher port.
pub fn sorted_sender_insertion<S>(senders: &mut Vec<(u32, Vec<S>)>, sender: S, target: u32)
    ensures
        ({
            let k = sender_pos(old(senders)@, target);
            if k < old(senders)@.len() && old(senders)@[k].0 == target {
                &&& final(senders)@.len() == old(senders)@.len()
                &&& final(senders)@[k].0 == target
                &&& final(senders)@[k].1@ == old(senders)@[k].1@.push(sender)
                &&& forall|j: int| 0 <= j < old(senders)@.len() && j != k ==> final(senders)@[j] == old(senders)@[j]
            } else {
                &&& final(senders)@.len() == old(senders)@.len() + 1
                &&& final(senders)@[k].0 == target
                &&& final(senders)@[k].1@ == seq![sender]
                &&& forall|j: int| 0 <= j < k ==> final(senders)@[j] == old(senders)@[j]
                &&& forall|j: int| k <= j < old(senders)@.len() ==> final(senders)@[j + 1] == old(senders)@[j]
            }
        }),
{
    let n = senders.len();
    let mut index: usize = n;
    let mut exists = false;
    let mut found = false;
    let mut i: usize = 0;
    while !found && i < n
        invariant
            i <= n,
            n == senders@.len(),
            senders@ == old(senders)@,
            forall|j: int| 0 <= j < i ==> senders@[j].0 < target,
            found ==> i < n && senders@[i as int].0 >= target && index == i && exists == (senders@[i as int].0 == target),
            !found ==> index == n && !exists,
        decreases n - i + (if found { 0int } else { 1int }),
    {
        let ind = senders[i].0;
        if ind >= target {
            index = i;
            exists = ind == target;
            found = true;
        } else {
            i = i + 1;
        }
    }
    proof {
        let s = senders@;
        if found {
            let k = choose|k: int| 0 <= k < s.len() && s[k].0 >= target && forall|j: int| 0 <= j < k ==> s[j].0 < target;
            assert(0 <= i < s.len() && s[i as int].0 >= target && forall|j: int| 0 <= j < i ==> s[j].0 < target);
            if k != i as int {
                if k < i { assert(s[k].0 < target); } else { assert(s[i as int].0 >= target); }
            }
        } else {
            assert(!(exists|k: int| 0 <= k < s.len() && s[k].0 >= target));
        }
    }
    if exists {
        let ghost before = senders@;
        let (port, mut group) = senders.remove(index);
        group.push(sender);
        senders.insert(index, (port, group));
        assert forall|j: int| 0 <= j < n && j != index implies senders@[j] == before[j] by {}
    } else {
        let v = vec![sender];
        senders.insert(index, (target, v));
    }
}

} // verus!
