//! The receiving end of the queue that carries timing samples to the
//! collector. What a queue holds at any moment depends on the other stages,
//! so nothing is promised about what comes out of it.

use crossbeam_channel::{Receiver, TryRecvError};
use vstd::prelude::*;

verus! {

/// `crossbeam_channel::Receiver`, carried as an opaque value.
#[verifier::external_type_specification]
#[verifier::external_body]
#[verifier::reject_recursive_types(T)]
pub struct ExReceiver<T>(Receiver<T>);

/// What one look into a queue finds.
pub enum Polled<T> {
    /// The oldest item waiting.
    Item(T),
    /// Nothing waiting, with a sender still there.
    Empty,
    /// Nothing waiting and no sender left.
    Disconnected,
}

/// `Receiver::try_recv`: takes the oldest waiting item without blocking, or
/// says whether the queue is merely empty or empty and disconnected.
#[verifier::external_body]
pub(crate) fn poll<T>(queue: &Receiver<T>) -> Polled<T> {
    match queue.try_recv() {
        Ok(item) => Polled::Item(item),
        Err(TryRecvError::Empty) => Polled::Empty,
        Err(TryRecvError::Disconnected) => Polled::Disconnected,
    }
}

/// `Receiver::len`: how many items are waiting at the moment of the call.
#[verifier::external_body]
pub(crate) fn waiting<T>(queue: &Receiver<T>) -> usize {
    queue.len()
}

} // verus!
