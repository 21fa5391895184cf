use vstd::prelude::*;

use std::sync::mpsc::{Receiver, Sender};
use std::time::Duration;

verus! {

#[verifier::external_type_specification]
#[verifier::external_body]
#[verifier::reject_recursive_types(T)]
pub struct ExSender<T>(Sender<T>);

#[verifier::external_type_specification]
#[verifier::external_body]
#[verifier::reject_recursive_types(T)]
pub struct ExReceiver<T>(Receiver<T>);

/// A new channel, through `std::sync::mpsc::channel`: what is sent on the
/// first half is received on the second. Nothing is stated of the halves.
#[verifier::external_body]
pub(crate) fn open_channel<T>() -> (r: (Sender<T>, Receiver<T>)) {
    std::sync::mpsc::channel()
}

/// Another sending half of the same channel, through `Sender::clone`.
#[verifier::external_body]
pub(crate) fn clone_sender<T>(tx: &Sender<T>) -> (r: Sender<T>) {
    tx.clone()
}

/// Sends `value`, through `Sender::send`. Whether the send succeeds depends
/// on whether the receiving half is still alive; when it fails, the value
/// that could not be sent is handed back (the field of `SendError`).
#[verifier::external_body]
pub fn send_on<T>(tx: &Sender<T>, value: T) -> (r: Result<(), T>)
    ensures
        r matches Err(v) ==> v == value,
{
    match tx.send(value) {
        Ok(()) => Ok(()),
        Err(e) => Err(e.0),
    }
}

/// A duration of `ms` milliseconds, through `Duration::from_millis`.
#[verifier::external_body]
pub fn millis(ms: u64) -> (r: Duration) {
    Duration::from_millis(ms)
}

/// Waits up to `wait` for a value on the channel, through
/// `Receiver::recv_timeout`; `None` when the wait ends without one or the
/// sending halves are gone. What arrives depends on the other threads:
/// nothing is stated of it.
#[verifier::external_body]
pub fn receive_within<T>(rx: &Receiver<T>, wait: Duration) -> (r: Option<T>) {
    rx.recv_timeout(wait).ok()
}

/// `s` is what `send_on` gave back for sending `value` on `tx` (the call
/// was made).
pub open spec fn sent_on<T>(tx: Sender<T>, value: T, s: Result<(), T>) -> bool {
    call_ensures(send_on::<T>, (&tx, value), s)
}

/// `d` is what `millis` gave for `ms` milliseconds (the call was made).
pub open spec fn made_millis(ms: u64, d: Duration) -> bool {
    call_ensures(millis, (ms,), d)
}

/// `r` is what `receive_within` gave when waiting up to `wait` on `rx` (the
/// call was made).
pub open spec fn received_within<T>(rx: Receiver<T>, wait: Duration, r: Option<T>) -> bool {
    call_ensures(receive_within::<T>, (&rx, wait), r)
}

} // verus!
