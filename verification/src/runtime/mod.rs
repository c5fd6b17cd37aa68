//! The runtime that generated code runs on: arcs between operators, the
//! operators of the language, and the errors of sending and receiving.
use vstd::prelude::*;
use std::sync::mpsc::{Receiver, RecvError, SendError, Sender};

pub mod arcs;
pub mod lang;

verus! {

/// `std::sync::mpsc::Sender`, the sending end of a channel.
#[verifier::external_type_specification]
#[verifier::external_body]
#[verifier::reject_recursive_types(T)]
pub struct ExSender<T>(Sender<T>);

/// `std::sync::mpsc::Receiver`, the receiving end of a channel.
#[verifier::external_type_specification]
#[verifier::external_body]
#[verifier::reject_recursive_types(T)]
pub struct ExReceiver<T>(Receiver<T>);

/// `std::sync::mpsc::SendError`: the value that could not be sent.
#[verifier::external_type_specification]
#[verifier::external_body]
#[verifier::reject_recursive_types(T)]
pub struct ExSendError<T>(SendError<T>);

/// `std::sync::mpsc::RecvError`: the channel is closed.
#[verifier::external_type_specification]
#[verifier::external_body]
pub struct ExRecvError(RecvError);

/// `Sender::send`: hands the value to the channel, and gives it back, taken out
/// of the `SendError`, where the receiving end is gone. Whether it is gone depends
/// on other threads, so which of the two comes back is not stated.
#[verifier::external_body]
pub(crate) fn channel_send<T>(s: &Sender<T>, t: T) -> (r: Result<(), T>)
    ensures
        r is Err ==> r->Err_0 == t,
{
    match s.send(t) {
        Ok(()) => Ok(()),
        Err(SendError(v)) => Err(v),
    }
}

/// `Receiver::recv`: waits for the next value. What comes back depends on the
/// other threads, so nothing is stated of it.
#[verifier::external_body]
pub(crate) fn channel_recv<T>(r: &Receiver<T>) -> Result<T, RecvError> {
    r.recv()
}

/// `std::sync::mpsc::SendError`'s constructor: the error of a failed send, which
/// carries the value back. The field is not visible here, so nothing is stated.
#[verifier::external_body]
pub(crate) fn send_error<T>(v: T) -> SendError<T> {
    SendError(v)
}

/// `std::sync::mpsc::channel`: a new channel, its sending and its receiving end.
#[verifier::external_body]
pub(crate) fn new_channel<T>() -> (Sender<T>, Receiver<T>) {
    std::sync::mpsc::channel()
}

/// Error type representing possible errors when sending or receiving data via arcs.
#[derive(Debug, PartialEq, Eq, Structural, Clone, Copy)]
pub enum RunError {
    SendFailed,
    RecvFailed,
}

/// The error of a failed send, as a `RunError`.
pub fn send_result<T>(r: Result<(), SendError<T>>) -> (e: Result<(), RunError>)
    ensures
        e is Ok <==> r is Ok,
        e is Err ==> e == Err::<(), RunError>(RunError::SendFailed),
{
    match r {
        Ok(()) => Ok(()),
        Err(_) => Err(RunError::SendFailed),
    }
}

/// The error of a failed receive, as a `RunError`.
pub fn recv_result<T>(r: Result<T, RecvError>) -> (e: Result<T, RunError>)
    ensures
        e is Ok <==> r is Ok,
        r is Ok ==> e == Ok::<T, RunError>(r->Ok_0),
        e is Err ==> e->Err_0 == RunError::RecvFailed,
{
    match r {
        Ok(v) => Ok(v),
        Err(_) => Err(RunError::RecvFailed),
    }
}

} // verus!
