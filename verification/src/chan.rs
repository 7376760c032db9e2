//! Trusted view of the std mpsc channels that carry frames between the
//! engine and the socket threads.
//!
//! The engine owns the receiving end of the inbound frame channel (fed
//! by whoever reads the socket) and the sending end of the outbound byte
//! channel (drained by whoever writes the socket).  What arrives, and
//! when, depends on the host and on the threads outside the engine, so
//! none of these contracts promises anything about the values carried.

use std::sync::mpsc::{Receiver, RecvTimeoutError, Sender};
use std::time::Duration;

use vstd::prelude::*;

use crate::header::Header;
use crate::reply::Reply;

verus! {

#[verifier::external_type_specification]
#[verifier::external_body]
#[verifier::reject_recursive_types(T)]
pub struct ExSender<T>(Sender<T>);

#[verifier::external_type_specification]
#[verifier::external_body]
#[verifier::reject_recursive_types(T)]
pub struct ExReceiver<T>(Receiver<T>);

/// What one bounded wait on the inbound channel produced.
pub enum RecvOutcome {
    Frame(Header, Reply),
    TimedOut,
    Closed,
}

/// Relies on std::sync::mpsc::Sender::send: the buffer is queued for the
/// consuming thread; the call fails only when that thread is gone.
#[verifier::external_body]
pub(crate) fn chan_send(tx: &Sender<Vec<u8>>, msg: Vec<u8>) -> (ok: bool) {
    tx.send(msg).is_ok()
}

/// Relies on std::sync::mpsc::Sender::clone: the clone feeds the same
/// queue as the original.
#[verifier::external_body]
pub(crate) fn chan_sender_clone(tx: &Sender<Vec<u8>>) -> (r: Sender<Vec<u8>>) {
    tx.clone()
}

/// Relies on std::sync::mpsc::Receiver::recv: blocks until a frame
/// arrives; `None` once the producing thread is gone and the channel is
/// drained.
#[verifier::external_body]
pub(crate) fn chan_recv(rx: &Receiver<(Header, Reply)>) -> (r: Option<(Header, Reply)>) {
    rx.recv().ok()
}

/// Relies on std::sync::mpsc::Receiver::recv_timeout: like `recv`, but
/// gives up after the given number of milliseconds.
#[verifier::external_body]
pub(crate) fn chan_recv_deadline(rx: &Receiver<(Header, Reply)>, millis: u64) -> (r: RecvOutcome) {
    match rx.recv_timeout(Duration::from_millis(millis)) {
        Ok((h, rep)) => RecvOutcome::Frame(h, rep),
        Err(RecvTimeoutError::Timeout) => RecvOutcome::TimedOut,
        Err(RecvTimeoutError::Disconnected) => RecvOutcome::Closed,
    }
}

} // verus!
