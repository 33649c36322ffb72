use crate::notifier::SmartChannelId;
use crate::queue::{another_handle, is_closed, MAX_CHANNEL_SIZE};
use smart_channel::{Receiver, Sender};
use vstd::prelude::*;

verus! {

/// The send-capable half of a subscription: a queue handle together with the
/// identity that binds it to exactly one receiving half.
#[verifier::reject_recursive_types(M)]
pub struct MessageSender<M> {
    id: SmartChannelId,
    sender: Sender<M, SmartChannelId>,
}

/// The receive-capable half of a subscription.
#[verifier::reject_recursive_types(M)]
pub struct MessageReceiver<M> {
    id: SmartChannelId,
    receiver: Receiver<M, SmartChannelId>,
}

impl<M> MessageSender<M> {
    /// The identity that this endpoint was opened with.
    pub closed spec fn identity(&self) -> SmartChannelId {
        self.id
    }

    /// Returns the identity of this endpoint.
    pub fn id(&self) -> (id: SmartChannelId)
        ensures
            id == self.identity(),
    {
        self.id
    }

    /// Tells whether this endpoint and `receiver` are the two halves of one
    /// subscription. This compares identities; it does not look at the queue.
    pub fn is_bound_to(&self, receiver: &MessageReceiver<M>) -> (bound: bool)
        ensures
            bound == (self.identity() == receiver.identity()),
    {
        self.id == receiver.id
    }

    /// The queue handle, for sending on it.
    pub fn sender(&self) -> (queue: &Sender<M, SmartChannelId>)
        ensures
            *queue == self.handle(),
    {
        &self.sender
    }

    /// Gives up the identity and returns the queue handle.
    pub fn into_sender(self) -> (queue: Sender<M, SmartChannelId>)
        ensures
            queue == self.handle(),
    {
        self.sender
    }

    /// Asks the queue whether its receiving half has been dropped or closed.
    pub(crate) fn is_closed(&self) -> bool {
        is_closed(&self.sender)
    }

    /// The queue handle that this endpoint holds.
    pub closed spec fn handle(&self) -> Sender<M, SmartChannelId> {
        self.sender
    }
}

impl<M: Clone> Clone for MessageSender<M> {
    /// Another handle on the same queue, under the same identity.
    fn clone(&self) -> (copy: Self)
        ensures
            copy.identity() == self.identity(),
    {
        MessageSender { id: self.id, sender: another_handle(&self.sender) }
    }
}

impl<M> MessageReceiver<M> {
    /// The identity that this endpoint was opened with.
    pub closed spec fn identity(&self) -> SmartChannelId {
        self.id
    }

    /// Returns the identity of this endpoint.
    pub fn id(&self) -> (id: SmartChannelId)
        ensures
            id == self.identity(),
    {
        self.id
    }

    /// Tells whether this endpoint and `sender` are the two halves of one
    /// subscription.
    pub fn is_bound_to(&self, sender: &MessageSender<M>) -> (bound: bool)
        ensures
            bound == (self.identity() == sender.identity()),
    {
        self.id == sender.id
    }

    /// The queue handle, for receiving from it. What the caller does to the
    /// handle is done to the handle of this endpoint; the identity stays.
    pub fn receiver(&mut self) -> (queue: &mut Receiver<M, SmartChannelId>)
        ensures
            *queue == old(self).handle(),
            final(self).handle() == *final(queue),
            final(self).identity() == old(self).identity(),
    {
        &mut self.receiver
    }

    /// The queue handle that this endpoint holds.
    pub closed spec fn handle(&self) -> Receiver<M, SmartChannelId> {
        self.receiver
    }
}

/// Opens a bounded queue of `channel_size` messages and returns its two
/// halves, both bound to `id`.
pub fn open<M>(channel_size: usize, id: SmartChannelId) -> (halves: (
    MessageSender<M>,
    MessageReceiver<M>,
))
    requires
        0 < channel_size <= MAX_CHANNEL_SIZE,
    ensures
        halves.0.identity() == id,
        halves.1.identity() == id,
{
    let (sender, receiver) = smart_channel::channel(channel_size, id);
    (MessageSender { id, sender }, MessageReceiver { id, receiver })
}

} // verus!
