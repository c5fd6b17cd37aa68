//! Structures and methods for moving and exchanging data between operators.
use vstd::prelude::*;
use std::sync::mpsc::{SendError, Sender};
use crate::runtime::{channel_send, send_error};

verus! {

/// An arc that does not have a receiving side. Any data sent into this arc is dropped.
pub struct DeadEndArc {}

impl Default for DeadEndArc {
    fn default() -> (a: DeadEndArc)
        ensures
            a == (DeadEndArc {}),
    {
        DeadEndArc {}
    }
}

/// Central abstraction layer for all arcs. Every type of arc needs to implement this
/// as it is used to move data between operators.
pub trait ArcInput<T> {
    fn dispatch(&self, t: T) -> Result<(), SendError<T>>;
}

impl<T> ArcInput<T> for Sender<T> {
    fn dispatch(&self, t: T) -> Result<(), SendError<T>> {
        match channel_send(self, t) {
            Ok(()) => Ok(()),
            Err(v) => Err(send_error(v)),
        }
    }
}

impl<T: Send> ArcInput<T> for DeadEndArc {
    /// Drops the value; dispatching into a dead end always succeeds.
    fn dispatch(&self, _t: T) -> (r: Result<(), SendError<T>>)
        ensures
            r is Ok,
    {
        Ok(())
    }
}

/// A cloning dispatch queue as abstraction for output ports that serve more than one arc.
#[verifier::reject_recursive_types(T)]
pub struct DispatchQueue<T: Send> {
    senders: Vec<Sender<T>>,
}

impl<T: Send> DispatchQueue<T> {
    /// The sending ends that every value goes to, in order.
    pub closed spec fn targets(&self) -> Seq<Sender<T>> {
        self.senders@
    }

    /// A queue that sends every value to each of `senders`.
    pub fn new(senders: Vec<Sender<T>>) -> (q: DispatchQueue<T>)
        ensures
            q.targets() == senders@,
    {
        DispatchQueue { senders: senders }
    }
}

impl<T: Send + Clone> ArcInput<T> for DispatchQueue<T> {
    /// Sends a clone of the value to each sending end in order, stopping at the
    /// first that fails. A queue without sending ends succeeds without sending.
    fn dispatch(&self, t: T) -> (r: Result<(), SendError<T>>)
        ensures
            self.targets().len() == 0 ==> r is Ok,
    {
        let n = self.senders.len();
        let mut i: usize = 0;
        while i < n
            invariant
                i <= n,
                n == self.senders@.len(),
            decreases n - i,
        {
            match channel_send(&self.senders[i], t.clone()) {
                Ok(()) => {},
                Err(v) => {
                    return Err(send_error(v));
                },
            }
            i = i + 1;
        }
        Ok(())
    }
}

} // verus!
