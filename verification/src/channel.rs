//! The channels between a controller and its background activity, as far as
//! the controller looks into them. What the other end does is not known here:
//! nothing is promised of what a look finds.

use tokio::sync::{mpsc, oneshot, watch};
use vstd::prelude::*;

verus! {

/// What a look into a channel found, without waiting.
#[derive(Debug)]
pub enum Polled<T> {
    /// A value was there, and has been taken out.
    Ready(T),
    /// Nothing is there yet.
    Empty,
    /// Nothing is there, and nothing will come.
    Closed,
}

/// `tokio::sync::mpsc::UnboundedReceiver`, the receiving end of a queue
/// without bound. Its contents are not modelled.
#[verifier::external_type_specification]
#[verifier::external_body]
#[verifier::reject_recursive_types(T)]
pub struct ExUnboundedReceiver<T>(mpsc::UnboundedReceiver<T>);

/// `tokio::sync::oneshot::Sender`, the sending end of a channel for a single
/// value. Its state is not modelled.
#[verifier::external_type_specification]
#[verifier::external_body]
#[verifier::reject_recursive_types(T)]
pub struct ExOneshotSender<T>(oneshot::Sender<T>);

/// `tokio::sync::oneshot::Receiver`, the receiving end of a channel for a
/// single value. Its state is not modelled.
#[verifier::external_type_specification]
#[verifier::external_body]
#[verifier::reject_recursive_types(T)]
pub struct ExOneshotReceiver<T>(oneshot::Receiver<T>);

/// `tokio::sync::oneshot::error::RecvError`, what awaiting a
/// `oneshot::Receiver` gives where the sender is gone. Nothing here awaits
/// one; the type is named by the receiver's own impls.
#[verifier::external_type_specification]
#[verifier::external_body]
pub struct ExRecvError(oneshot::error::RecvError);

/// `tokio::sync::watch::Receiver`, the reading end of a slot that holds the
/// value sent last. Its contents are not modelled.
#[verifier::external_type_specification]
#[verifier::external_body]
#[verifier::reject_recursive_types(T)]
pub struct ExWatchReceiver<T>(watch::Receiver<T>);

/// Calls `UnboundedReceiver::try_recv`, which does not wait for a value.
/// Nothing is claimed of the outcome: it depends on what the senders did.
#[verifier::external_body]
pub(crate) fn poll_queue<T>(receiver: &mut mpsc::UnboundedReceiver<T>) -> (polled: Polled<T>) {
    match receiver.try_recv() {
        Ok(value) => Polled::Ready(value),
        Err(mpsc::error::TryRecvError::Empty) => Polled::Empty,
        Err(mpsc::error::TryRecvError::Disconnected) => Polled::Closed,
    }
}

/// Calls `oneshot::Receiver::try_recv`, which does not wait for the value.
/// Nothing is claimed of the outcome: it depends on what the sender did.
#[verifier::external_body]
pub(crate) fn poll_once<T>(receiver: &mut oneshot::Receiver<T>) -> (polled: Polled<T>) {
    match receiver.try_recv() {
        Ok(value) => Polled::Ready(value),
        Err(oneshot::error::TryRecvError::Empty) => Polled::Empty,
        Err(oneshot::error::TryRecvError::Closed) => Polled::Closed,
    }
}

/// Calls `oneshot::Sender::send` with the unit value and says whether the
/// receiver was still there to take it. Nothing is claimed of the outcome,
/// but that the call returns: `send` waits for nothing and does not panic.
#[verifier::external_body]
pub(crate) fn send_signal(sender: oneshot::Sender<()>) -> (delivered: bool)
    opens_invariants none
    no_unwind
{
    sender.send(()).is_ok()
}

/// Calls `watch::Receiver::borrow` and copies the value out. Nothing is
/// claimed of the value: it is what the sender put there last.
#[verifier::external_body]
pub(crate) fn latest<T: Copy>(receiver: &watch::Receiver<T>) -> (value: T) {
    *receiver.borrow()
}

} // verus!
