//! The operators of the Ohua language: they read their inputs from channels and
//! dispatch their results to arcs.
#![allow(non_snake_case)]

use vstd::prelude::*;
use std::sync::mpsc::{Receiver, RecvError};
use crate::runtime::arcs::ArcInput;
use crate::runtime::{channel_recv, channel_send, new_channel, recv_result, send_result, RunError};

verus! {

/// The control signals of `ifFun` for the true and the false branch: the branch
/// taken runs once, the other not at all.
pub open spec fn spec_if_signals(cond: bool) -> ((bool, isize), (bool, isize)) {
    if cond {
        ((true, 1), (true, 0))
    } else {
        ((true, 0), (true, 1))
    }
}

/// The control signals of `ifFun`.
pub fn if_signals(cond: bool) -> (r: ((bool, isize), (bool, isize)))
    ensures
        r == spec_if_signals(cond),
{
    if cond {
        ((true, 1), (true, 0))
    } else {
        ((true, 0), (true, 1))
    }
}

/// Whatever the condition, exactly one branch of an `if` runs, and it runs once.
pub proof fn lemma_if_runs_one_branch(cond: bool)
    ensures
        spec_if_signals(cond).0.1 + spec_if_signals(cond).1.1 == 1,
        spec_if_signals(cond).0.0 && spec_if_signals(cond).1.0,
        cond ==> spec_if_signals(cond).0.1 == 1,
        !cond ==> spec_if_signals(cond).1.1 == 1,
{
}

/// The signals `smapFun` sends for a collection of `size` elements: the size to
/// the collecting side, and one control signal that runs the body `size` times.
pub open spec fn spec_smap_header(size: usize) -> (usize, (bool, isize)) {
    (size, (true, size as isize))
}

/// The signals `smapFun` sends for a received collection of `size` elements.
pub fn smap_header(size: usize) -> (r: (usize, (bool, isize)))
    ensures
        r == spec_smap_header(size),
{
    #[verifier::truncate]
    let n = size as isize;
    (size, (true, n))
}

/// What `smapFun` hands to one of its outputs.
#[derive(Debug, PartialEq, Eq)]
pub enum SmapSignal<T> {
    /// The number of elements, for the collecting side (`collect_out`).
    Count(usize),
    /// A control signal for the loop body (`ctrl_out`).
    Control((bool, isize)),
    /// An element of the collection (`data_out`).
    Element(T),
}

/// The elements each followed by a control signal that runs the body once more:
/// the signals of a collection whose size is not known in advance.
pub open spec fn spec_streamed<T>(data: Seq<T>) -> Seq<SmapSignal<T>>
    decreases data.len(),
{
    if data.len() == 0 {
        Seq::empty()
    } else {
        spec_streamed(data.drop_last()) + seq![SmapSignal::Element(data.last()), SmapSignal::Control((false, 1isize))]
    }
}

/// What `smapFun` sends, in order, for the elements `data` of a received
/// collection whose size is `size`, if known in advance. With a known size: the
/// size to the collecting side, one control signal that runs the body `size`
/// times, then the elements. With an unknown size: each element followed by a
/// control signal that runs the body once, then the number of elements to the
/// collecting side and a control signal that ends the loop.
pub open spec fn spec_smap_plan<T>(data: Seq<T>, size: Option<usize>) -> Seq<SmapSignal<T>> {
    match size {
        Some(s) => seq![SmapSignal::Count(spec_smap_header(s).0), SmapSignal::Control(spec_smap_header(s).1)]
            + data.map_values(|d: T| SmapSignal::Element(d)),
        None => spec_streamed(data) + seq![SmapSignal::Count(data.len() as usize), SmapSignal::Control((true, 0isize))],
    }
}

/// The signals `smapFun` sends for the elements `data` of a collection, whose
/// size is `size` where it is known in advance.
pub fn smap_plan<T>(data: Vec<T>, size: Option<usize>) -> (r: Vec<SmapSignal<T>>)
    ensures
        r@ == spec_smap_plan(data@, size),
{
    let ghost d0 = data@;
    let n = data.len();
    let mut out: Vec<SmapSignal<T>> = Vec::new();
    if let Some(s) = size {
        let (count, signal) = smap_header(s);
        out.push(SmapSignal::Count(count));
        out.push(SmapSignal::Control(signal));
    }
    let ghost head = out@;
    let mut data = data;
    let mut i: usize = 0;
    while i < n
        invariant
            i <= n,
            n == d0.len(),
            data@ == d0.subrange(i as int, n as int),
            size is Some ==> out@ == head + d0.subrange(0, i as int).map_values(|d: T| SmapSignal::Element(d)),
            size is None ==> out@ == spec_streamed(d0.subrange(0, i as int)),
            size is Some ==> head == seq![SmapSignal::<T>::Count(spec_smap_header(size->0).0), SmapSignal::Control(spec_smap_header(size->0).1)],
        decreases n - i,
    {
        let ghost prev = out@;
        let d = data.remove(0);
        assert(d == d0[i as int]);
        assert(d0.subrange(0, (i + 1) as int).drop_last() =~= d0.subrange(0, i as int));
        out.push(SmapSignal::Element(d));
        if size.is_none() {
            out.push(SmapSignal::Control((false, 1)));
            assert(out@ =~= spec_streamed(d0.subrange(0, (i + 1) as int)));
        } else {
            assert(out@ =~= head + d0.subrange(0, (i + 1) as int).map_values(|d: T| SmapSignal::Element(d)));
        }
        assert(data@ =~= d0.subrange((i + 1) as int, n as int));
        i = i + 1;
    }
    assert(d0.subrange(0, n as int) =~= d0);
    if size.is_none() {
        out.push(SmapSignal::Count(n));
        out.push(SmapSignal::Control((true, 0)));
    }
    assert(out@ =~= spec_smap_plan(d0, size));
    out
}

/// Hands each signal, in order, to the output it is for, and stops at the first
/// that fails.
fn send_smap_plan<T: Send>(
    plan: Vec<SmapSignal<T>>,
    data_out: &dyn ArcInput<T>,
    ctrl_out: &dyn ArcInput<(bool, isize)>,
    collect_out: &dyn ArcInput<usize>,
) -> Result<(), RunError> {
    let mut plan = plan;
    while plan.len() > 0
        decreases plan@.len(),
    {
        match plan.remove(0) {
            SmapSignal::Count(n) => send_result(collect_out.dispatch(n))?,
            SmapSignal::Control(c) => send_result(ctrl_out.dispatch(c))?,
            SmapSignal::Element(d) => send_result(data_out.dispatch(d))?,
        }
    }
    Ok(())
}

/// Hands the elements of a collection to the loop body: sends the signals of
/// `smap_plan` for `data` and `size` (the collection's size, where known in
/// advance) to the outputs, in order, and stops at the first that fails.
pub fn smap_dispatch<T: Send>(
    data: Vec<T>,
    size: Option<usize>,
    data_out: &dyn ArcInput<T>,
    ctrl_out: &dyn ArcInput<(bool, isize)>,
    collect_out: &dyn ArcInput<usize>,
) -> Result<(), RunError> {
    send_smap_plan(smap_plan(data, size), data_out, ctrl_out, collect_out)
}

/// Splits each incoming collection into its elements and sends the signals of
/// `smap_plan` to the outputs, in order (`smap_dispatch`). A vector knows its
/// size, so the announcement comes first; a collection whose size is not known
/// in advance goes to `smap_dispatch` with no size.
pub fn smapFun<T: Send>(
    inp: &Receiver<Vec<T>>,
    data_out: &dyn ArcInput<T>,
    ctrl_out: &dyn ArcInput<(bool, isize)>,
    collect_out: &dyn ArcInput<usize>,
) -> Result<(), RunError> {
    let data = recv_result(channel_recv(inp))?;
    let size = data.len();
    smap_dispatch(data, Some(size), data_out, ctrl_out, collect_out)
}

/// The values that `collect` has gathered towards the number it was told.
#[verifier::reject_recursive_types(T)]
pub struct Collector<T> {
    expected: usize,
    gathered: Vec<T>,
}

impl<T> Collector<T> {
    /// The number of values to gather.
    pub closed spec fn expected(&self) -> nat {
        self.expected as nat
    }

    /// The values gathered so far, in the order they came.
    pub closed spec fn gathered(&self) -> Seq<T> {
        self.gathered@
    }

    /// A collector for `n` values, with none yet.
    pub fn new(n: usize) -> (c: Collector<T>)
        ensures
            c.expected() == n,
            c.gathered() == Seq::<T>::empty(),
    {
        Collector { expected: n, gathered: Vec::new() }
    }

    /// Whether all the values have come.
    pub fn is_complete(&self) -> (r: bool)
        ensures
            r == (self.gathered().len() >= self.expected()),
    {
        self.gathered.len() >= self.expected
    }

    /// Takes the next value.
    pub fn add(&mut self, v: T)
        requires
            old(self).gathered().len() < old(self).expected(),
        ensures
            final(self).expected() == old(self).expected(),
            final(self).gathered() == old(self).gathered().push(v),
    {
        self.gathered.push(v);
    }

    /// The values gathered, in the order they came.
    pub fn into_values(self) -> (r: Vec<T>)
        ensures
            r@ == self.gathered(),
    {
        self.gathered
    }
}

/// Collects `n` values from `data` into a vector and dispatches it: the number
/// comes first, then exactly that many values, which go out as one vector in the
/// order they came.
pub fn collect<T: Send>(
    n: &Receiver<usize>,
    data: &Receiver<T>,
    out: &dyn ArcInput<Vec<T>>,
) -> Result<(), RunError> {
    let num = recv_result(channel_recv(n))?;
    let mut c: Collector<T> = Collector::new(num);
    while !c.is_complete()
        invariant
            c.expected() == num,
            c.gathered().len() <= num,
        decreases num - c.gathered().len(),
    {
        let v = recv_result(channel_recv(data))?;
        c.add(v);
    }
    send_result(out.dispatch(c.into_values()))
}

/// The branch that `select` reads: the true branch if the decision holds, else
/// the other.
pub fn select_branch<'a, T>(decision: bool, true_branch: &'a Receiver<T>, else_branch: &'a Receiver<T>) -> (r: &'a Receiver<T>)
    ensures
        r == (if decision { true_branch } else { else_branch }),
{
    if decision { true_branch } else { else_branch }
}

/// Forwards the next value of the branch that the decision picks (`select_branch`);
/// the other branch is not read.
pub fn select<T: Send>(
    decision: &Receiver<bool>,
    true_branch: &Receiver<T>,
    else_branch: &Receiver<T>,
    out: &dyn ArcInput<T>,
) -> Result<(), RunError> {
    let d = recv_result(channel_recv(decision))?;
    let branch = select_branch(d, true_branch, else_branch);
    let v = recv_result(channel_recv(branch))?;
    send_result(out.dispatch(v))
}

/// The control signals of `ifFun` for what it received on its condition: for a
/// condition `c`, the signals of `spec_if_signals(c)` (the branch that `c` picks
/// runs once, the other not at all); for a failed receive, `RecvFailed`.
pub fn if_step(received: Result<bool, RecvError>) -> (r: Result<((bool, isize), (bool, isize)), RunError>)
    ensures
        match received {
            Ok(c) => r == Ok::<((bool, isize), (bool, isize)), RunError>(spec_if_signals(c)),
            Err(_) => r == Err::<((bool, isize), (bool, isize)), RunError>(RunError::RecvFailed),
        },
        received matches Ok(true) ==> (r matches Ok(s) && s.0 == (true, 1isize) && s.1 == (true, 0isize)),
        received matches Ok(false) ==> (r matches Ok(s) && s.0 == (true, 0isize) && s.1 == (true, 1isize)),
{
    match received {
        Ok(c) => Ok(if_signals(c)),
        Err(_) => Err(RunError::RecvFailed),
    }
}

/// Activates the branch that the condition picks, once, and the other branch not
/// at all: the signals of `if_step` for the received condition go to `ctrl_true`
/// and `ctrl_false`.
pub fn ifFun(
    cond: &Receiver<bool>,
    ctrl_true: &dyn ArcInput<(bool, isize)>,
    ctrl_false: &dyn ArcInput<(bool, isize)>,
) -> Result<(), RunError> {
    let (t, f) = if_step(channel_recv(cond))?;
    send_result(ctrl_true.dispatch(t))?;
    send_result(ctrl_false.dispatch(f))
}

/// The identity.
pub fn id<T>(data: T) -> (r: T)
    ensures
        r == data,
{
    data
}

/// The control signal of a sequence: run once.
pub fn seqFun<T: Send>(_t: T) -> (r: (bool, isize))
    ensures
        r == (true, 1isize),
{
    (true, 1)
}

/// The placeholder of the recursion operator: the code generator replaces it by
/// a `recur_n` operator, so it does nothing.
pub fn recurFun<T: Send, S: Send>(
    call_actuals_in: &Receiver<T>,
    recur_cond_in: &Receiver<T>,
    recur_actuals_in: &Receiver<T>,
    recur_result_in: &Receiver<S>,
    ctrl_out: &dyn ArcInput<(bool, isize)>,
    recur_formals_out: &dyn ArcInput<T>,
    result_out: &dyn ArcInput<S>,
) -> (r: Result<(), RunError>)
    ensures
        r is Ok,
{
    Ok(())
}

/// A receiving end that holds the literal `t`, to pass literals to operators.
/// The channel's receiving end is alive when the value is sent, so the send succeeds.
pub fn send_once<T>(t: T) -> Receiver<T> {
    let (snd, rcv) = new_channel();
    let _ = channel_send(&snd, t);
    rcv
}

/// The unit value, the argument of functions that take no arguments.
#[derive(Debug)]
pub struct Unit {}

impl Clone for Unit {
    fn clone(&self) -> (r: Unit)
        ensures
            r == *self,
    {
        Unit {}
    }
}

/// Calls a function that takes no arguments, for a call that hands it the unit value.
pub fn unitFn<A, F>(f: F, _signal: Unit) -> (r: A)
    where
        F: Fn() -> A,
    requires
        f.requires(()),
    ensures
        f.ensures((), r),
{
    f()
}

} // verus!
