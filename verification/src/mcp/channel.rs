//! Channels to clients, each with a log of what was offered to it.

use tokio::sync::mpsc::error::TrySendError;
use tokio::sync::mpsc::Sender;
use vstd::prelude::*;

verus! {

/// `tokio::sync::mpsc::Sender`, the sending half of a bounded channel.
#[verifier::external_type_specification]
#[verifier::external_body]
#[verifier::reject_recursive_types(T)]
pub struct ExSender<T>(tokio::sync::mpsc::Sender<T>);

/// What came of handing a message to a channel.
#[derive(Debug, Clone, Copy, PartialEq, Eq, Structural)]
pub enum Delivery {
    Taken,
    /// The receiver is there and has not caught up.
    Full,
    /// The receiver is gone.
    Closed,
}

/// A registered client: the way to its channel, and a log of the messages that were
/// offered through it.
#[verifier::reject_recursive_types(T)]
pub struct Sink<T> {
    sender: Sender<T>,
    log: Ghost<Seq<(T, Delivery)>>,
}

impl<T> Sink<T> {
    /// The channel's sending half.
    pub closed spec fn sender(self) -> Sender<T> {
        self.sender
    }

    /// The messages that were offered through this sink, each with what came of it.
    pub closed spec fn tried(self) -> Seq<(T, Delivery)> {
        self.log@
    }

    /// A client at its registration: nothing has been offered to it.
    pub fn new(sender: Sender<T>) -> (res: Sink<T>)
        ensures
            res.sender() == sender,
            res.tried() == Seq::<(T, Delivery)>::empty(),
    {
        Sink { sender, log: Ghost(Seq::empty()) }
    }

    /// `Sender::try_send`: hands `message` to the channel, once and without waiting,
    /// and says what came of it. That depends on the receiver, so no outcome is
    /// promised. The log has one entry more; the channel stays the same.
    #[verifier::external_body]
    pub(crate) fn offer(&mut self, message: T) -> (outcome: Delivery)
        ensures
            final(self).sender() == old(self).sender(),
            final(self).tried() == old(self).tried().push((message, outcome)),
    {
        match self.sender.try_send(message) {
            Ok(()) => Delivery::Taken,
            Err(TrySendError::Full(_)) => Delivery::Full,
            Err(TrySendError::Closed(_)) => Delivery::Closed,
        }
    }
}

} // verus!
