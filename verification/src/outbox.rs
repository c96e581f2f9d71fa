//! The outbound queue of a connection: a bounded `tokio` channel that takes
//! messages without ever blocking the one who offers them.
//!
//! Everything that reaches into `tokio` is in this file. The queue itself is
//! shared with whoever drains it, so nothing here says what a queue holds:
//! an offer is answered by the queue as it stands at that moment.

use vstd::prelude::*;
use tokio::sync::mpsc::error::TrySendError;
use tokio::sync::mpsc::Receiver;
use tokio::sync::mpsc::Sender;
use crate::message::ServerMessage;

verus! {

/// `tokio::sync::mpsc::Sender`, the producing end of a queue. Opaque here.
#[verifier::external_type_specification]
#[verifier::external_body]
#[verifier::reject_recursive_types(T)]
pub struct ExSender<T>(Sender<T>);

/// `tokio::sync::mpsc::Receiver`, the draining end of a queue. Opaque here.
#[verifier::external_type_specification]
#[verifier::external_body]
#[verifier::reject_recursive_types(T)]
pub struct ExReceiver<T>(Receiver<T>);

/// How many messages the queue of one connection holds before it turns
/// further ones away.
pub const OUTBOX_CAPACITY: usize = 10;

/// The number of messages that the queue behind `sender` was made to hold:
/// what `Sender::max_capacity` reports for it, fixed when the queue is made.
pub uninterp spec fn outbox_bound(sender: Sender<ServerMessage>) -> nat;

/// What became of a message that was offered to a queue.
#[derive(Clone, Copy, Debug, PartialEq, Eq, Structural)]
pub enum Offer {
    /// The queue took it; it will be delivered after what was queued before.
    Queued,
    /// The queue was full: the message is dropped.
    Full,
    /// Nobody drains the queue any more: the message is dropped.
    Closed,
}

impl Offer {
    /// Whether the message was lost.
    pub open spec fn is_dropped(self) -> bool {
        self != Offer::Queued
    }

    /// Whether the message was lost: anything but `Queued`.
    pub fn dropped(&self) -> (lost: bool)
        ensures
            lost == self.is_dropped(),
    {
        match self {
            Offer::Queued => false,
            Offer::Full => true,
            Offer::Closed => true,
        }
    }
}

/// Calls `tokio::sync::mpsc::channel`, which makes a queue for `buffer`
/// messages and hands out its two ends. It panics on a `buffer` of zero or
/// above `usize::MAX >> 3`, which the precondition keeps away. The contract
/// records the bound that the queue was made with.
#[verifier::external_body]
fn bounded_channel(buffer: usize) -> (ends: (Sender<ServerMessage>, Receiver<ServerMessage>))
    requires
        0 < buffer <= usize::MAX / 8,
    ensures
        outbox_bound(ends.0) == buffer,
{
    tokio::sync::mpsc::channel(buffer)
}

/// Calls `Sender::try_send`, which queues `message` if the queue has room
/// and its draining end is alive, and otherwise hands it back at once inside
/// an error that says which of the two failed. It never waits. Which answer
/// comes depends on the queue at that moment, so the contract promises none.
#[verifier::external_body]
pub(crate) fn try_send(sender: &Sender<ServerMessage>, message: ServerMessage) -> (offer: Offer) {
    match sender.try_send(message) {
        Ok(()) => Offer::Queued,
        Err(TrySendError::Full(_)) => Offer::Full,
        Err(TrySendError::Closed(_)) => Offer::Closed,
    }
}

/// Makes the outbound queue of one connection, with room for
/// `OUTBOX_CAPACITY` messages.
pub fn open_outbox() -> (ends: (Sender<ServerMessage>, Receiver<ServerMessage>))
    ensures
        outbox_bound(ends.0) == OUTBOX_CAPACITY,
{
    bounded_channel(OUTBOX_CAPACITY)
}

} // verus!
