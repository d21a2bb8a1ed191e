//! The outbound channel: a bounded `tokio` channel of messages, one per
//! connected client. The registry holds its sending half and the client's
//! pump its receiving half.
//!
//! Nothing here is proved: these items declare what `tokio` offers.

use tokio::sync::mpsc::{Receiver, Sender};
use vstd::prelude::*;

verus! {

/// The most that a bounded channel can be asked to buffer.
pub open spec fn max_capacity() -> usize {
    usize::MAX / 8
}

/// `tokio::sync::mpsc::Sender`, the sending half of a bounded channel. Its
/// contents are not modelled.
#[verifier::external_type_specification]
#[verifier::external_body]
#[verifier::reject_recursive_types(T)]
pub struct ExSender<T>(Sender<T>);

/// `tokio::sync::mpsc::Receiver`, the receiving half of a bounded channel.
/// Its contents are not modelled.
#[verifier::external_type_specification]
#[verifier::external_body]
#[verifier::reject_recursive_types(T)]
pub struct ExReceiver<T>(Receiver<T>);

/// `tokio::sync::mpsc::channel` creates a bounded channel and returns its two
/// halves. It panics for a buffer of 0 and for one above the limit of its
/// semaphore, `usize::MAX >> 3`; both are left out here. Nothing is claimed
/// of the halves.
pub assume_specification<T>[ tokio::sync::mpsc::channel::<T> ](buffer: usize) -> (halves: (
    Sender<T>,
    Receiver<T>,
))
    requires
        0 < buffer <= max_capacity(),
;

} // verus!
