use crate::endpoint::MessageSender;
use crate::notifier::SmartChannelId;
use crate::queue::{current_runtime, spawn_send, undelivered, SendHandle};
use tokio::runtime::Handle;
use tokio::sync::mpsc::error::SendError;
use vstd::prelude::*;

verus! {

/// One send of a fan-out: to whom, what, and the handle on the unit of work
/// that does it. A value of this type exists only where [`PendingSend::start`]
/// has started the send.
#[verifier::reject_recursive_types(M)]
pub struct PendingSend<M> {
    /// The identity of the endpoint that the message goes to.
    target: SmartChannelId,
    /// The message.
    message: Ghost<M>,
    /// The handle on the send, or the message back where nothing could be
    /// scheduled.
    outcome: Result<SendHandle<M>, SendError<M>>,
}

impl<M> PendingSend<M> {
    /// The identity of the endpoint that the message goes to.
    pub closed spec fn target(&self) -> SmartChannelId {
        self.target
    }

    /// The message that was handed to the send.
    pub closed spec fn message(&self) -> M {
        self.message@
    }

    /// The handle on the send, or the refusal where it could not be
    /// scheduled.
    pub closed spec fn outcome(&self) -> Result<SendHandle<M>, SendError<M>> {
        self.outcome
    }

    /// Gives up the record and returns the handle on the send, or the refusal
    /// where it could not be scheduled.
    pub fn into_outcome(self) -> (outcome: Result<SendHandle<M>, SendError<M>>)
        ensures
            outcome == self.outcome(),
    {
        self.outcome
    }
}

impl<M: Clone + Send + 'static> PendingSend<M> {
    /// Starts the send of `msg` to the queue of `sender`, as a unit of work of
    /// its own in the runtime that the caller runs in. Outside a runtime
    /// nothing can be scheduled, and the send is refused.
    pub fn start(sender: &MessageSender<M>, msg: M) -> (pending: Self)
        ensures
            pending.target() == sender.identity(),
            pending.message() == msg,
    {
        Self::start_in(current_runtime(), sender, msg)
    }

    /// Starts the send of `msg` to the queue of `sender`, as a unit of work of
    /// its own in `runtime`. Without a runtime the send is refused.
    pub fn start_in(runtime: Option<Handle>, sender: &MessageSender<M>, msg: M) -> (pending: Self)
        ensures
            pending.target() == sender.identity(),
            pending.message() == msg,
            pending.outcome() is Ok <==> runtime is Some,
    {
        let ghost message = msg;
        let queue = sender.clone().into_sender();
        let outcome = match runtime {
            Some(runtime) => Ok(spawn_send(&runtime, queue, msg)),
            None => Err(undelivered(msg)),
        };
        PendingSend { target: sender.id(), message: Ghost(message), outcome }
    }
}

/// The identities that the sends of `pending` go to, in their order.
pub open spec fn targets_of<M>(pending: Seq<PendingSend<M>>) -> Seq<SmartChannelId> {
    pending.map_values(|send: PendingSend<M>| send.target())
}

/// The handles of the sends of `pending` that were scheduled, in their order.
pub open spec fn handles_of<M>(pending: Seq<PendingSend<M>>) -> Seq<SendHandle<M>> {
    pending.filter_map(
        |send: PendingSend<M>|
            match send.outcome() {
                Ok(handle) => Some(handle),
                Err(_) => None,
            },
    )
}

/// The refusals of the sends of `pending` that could not be scheduled, in
/// their order.
pub open spec fn refusals_of<M>(pending: Seq<PendingSend<M>>) -> Seq<SendError<M>> {
    pending.filter_map(
        |send: PendingSend<M>|
            match send.outcome() {
                Ok(_) => None,
                Err(refusal) => Some(refusal),
            },
    )
}

/// The messages of the sends of `pending`, in their order.
pub open spec fn messages_of<M>(pending: Seq<PendingSend<M>>) -> Seq<M> {
    pending.map_values(|send: PendingSend<M>| send.message())
}

} // verus!
