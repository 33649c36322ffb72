use crate::endpoint::MessageSender;
use crate::error::{NotifierError, UnexpectedErrorKind};
use crate::notifier::{identities, SmartChannelId};
use crate::pending::{handles_of, messages_of, refusals_of, targets_of, PendingSend};
pub use crate::queue::SendHandle;
use std::sync::Arc;
pub use std::time::Duration;
use tokio::sync::mpsc::error::SendError;
use tokio::task::JoinError;
use vstd::prelude::*;

verus! {

/// What awaiting one scheduled send yields: the send went through, the queue
/// was closed, or the unit of work did not run to its end.
pub type SendOutcome<M> = Result<Result<(), SendError<M>>, JoinError>;

/// Every entry of `copies` is a clone of `message`.
pub open spec fn clones_of<M: Clone>(message: M, copies: Seq<M>) -> bool {
    forall|i: int| 0 <= i < copies.len() ==> cloned(message, #[trigger] copies[i])
}

/// The error that an outcome stands for, if it is a failure.
pub open spec fn failure_of<M, ChannelId>(outcome: SendOutcome<M>) -> Option<
    NotifierError<M, ChannelId>,
> {
    match outcome {
        Ok(Ok(_)) => None,
        Ok(Err(refusal)) => Some(NotifierError::SendingError(refusal)),
        Err(abort) => Some(NotifierError::JoiningError(abort)),
    }
}

/// The error that a send that could not be scheduled stands for.
pub open spec fn refusal_of<M, ChannelId>(refusal: SendError<M>) -> NotifierError<M, ChannelId> {
    NotifierError::SendingError(refusal)
}

/// The errors of one multicast: first the sends that could not be scheduled,
/// then the scheduled sends that failed, each group in its order.
pub open spec fn failures<M, ChannelId>(
    refused: Seq<SendError<M>>,
    outcomes: Seq<SendOutcome<M>>,
) -> Seq<NotifierError<M, ChannelId>> {
    refused.map_values(|refusal: SendError<M>| refusal_of::<M, ChannelId>(refusal))
        + outcomes.filter_map(|outcome: SendOutcome<M>| failure_of::<M, ChannelId>(outcome))
}

/// The outcome of a fan-out: one send per targeted subscriber, each scheduled
/// as a unit of work of its own. The sends run whether or not anybody waits
/// for them, and dropping the handler does not stop them. A send that has to
/// wait for room in its queue holds a thread of the blocking pool until the
/// message is in or the receiving half is gone.
#[verifier::reject_recursive_types(M)]
pub struct WritingHandler<M> {
    /// The sends of the fan-out, one per targeted subscriber, in their order.
    pending: Vec<PendingSend<M>>,
}

impl<M> WritingHandler<M> {
    /// The identities of the targeted subscribers, in the order of the sends.
    pub closed spec fn targets(&self) -> Seq<SmartChannelId> {
        targets_of(self.pending@)
    }

    /// The message of each send, in the order of the sends.
    pub closed spec fn messages(&self) -> Seq<M> {
        messages_of(self.pending@)
    }

    /// The handler of a fan-out to nobody. It is complete.
    pub fn empty() -> (handler: Self)
        ensures
            handler.targets() == Seq::<SmartChannelId>::empty(),
            handler.messages() == Seq::<M>::empty(),
    {
        let handler = WritingHandler { pending: Vec::new() };
        assert(handler.targets() =~= Seq::<SmartChannelId>::empty());
        assert(handler.messages() =~= Seq::<M>::empty());
        handler
    }

    /// The number of targeted subscribers.
    pub fn len(&self) -> (number: usize)
        ensures
            number == self.targets().len(),
            number == self.messages().len(),
    {
        self.pending.len()
    }

    /// Whether the fan-out has no target.
    pub fn is_empty(&self) -> (empty: bool)
        ensures
            empty == (self.targets().len() == 0),
    {
        self.pending.len() == 0
    }

    /// The handles of the sends that were scheduled, in the order of the
    /// sends.
    pub closed spec fn scheduled(&self) -> Seq<SendHandle<M>> {
        handles_of(self.pending@)
    }

    /// The refusals of the sends that could not be scheduled, in the order of
    /// the sends.
    pub closed spec fn refused(&self) -> Seq<SendError<M>> {
        refusals_of(self.pending@)
    }

    /// Hands out the sends to whoever awaits them: the handles of those that
    /// were scheduled, and the refusals of those that could not be. Each
    /// target has one or the other.
    pub fn into_parts(self) -> (parts: (Vec<SendHandle<M>>, Vec<SendError<M>>))
        ensures
            parts.0@ == self.scheduled(),
            parts.1@ == self.refused(),
            parts.0@.len() + parts.1@.len() == self.targets().len(),
    {
        let ghost all = self.pending@;
        let ghost handle = |send: PendingSend<M>|
            match send.outcome() {
                Ok(handle) => Some(handle),
                Err(_) => None,
            };
        let ghost refusal = |send: PendingSend<M>|
            match send.outcome() {
                Ok(_) => None,
                Err(refusal) => Some(refusal),
            };
        let mut scheduled: Vec<SendHandle<M>> = Vec::new();
        let mut refused: Vec<SendError<M>> = Vec::new();
        assert(all.take(0).filter_map(handle) =~= Seq::empty());
        assert(all.take(0).filter_map(refusal) =~= Seq::empty());
        for send in it: self.pending
            invariant
                it.seq() == all,
                handle == |send: PendingSend<M>|
                    match send.outcome() {
                        Ok(handle) => Some(handle),
                        Err(_) => None,
                    },
                refusal == |send: PendingSend<M>|
                    match send.outcome() {
                        Ok(_) => None,
                        Err(refusal) => Some(refusal),
                    },
                scheduled@ =~= all.take(it.index() as int).filter_map(handle),
                refused@ =~= all.take(it.index() as int).filter_map(refusal),
                scheduled@.len() + refused@.len() == it.index(),
        {
            proof {
                all.lemma_filter_map_take_succ(handle, it.index() as int);
                all.lemma_filter_map_take_succ(refusal, it.index() as int);
            }
            match send.into_outcome() {
                Ok(handle) => scheduled.push(handle),
                Err(refusal) => refused.push(refusal),
            }
        }
        assert(all.take(all.len() as int) =~= all);
        (scheduled, refused)
    }

    /// The result of a wait during which every scheduled send was awaited:
    /// success where nothing failed, else every failure.
    pub fn conclude<ChannelId>(refused: Vec<SendError<M>>, outcomes: Vec<SendOutcome<M>>) -> (result:
        Result<(), NotifierError<M, ChannelId>>)
        ensures
            match result {
                Ok(_) => failures::<M, ChannelId>(refused@, outcomes@).len() == 0,
                Err(error) => {
                    &&& failures::<M, ChannelId>(refused@, outcomes@).len() > 0
                    &&& error matches NotifierError::WritingSendError(errors)
                    &&& errors@ == failures::<M, ChannelId>(refused@, outcomes@)
                },
            },
    {
        let ghost all_refused = refused@;
        let ghost all_outcomes = outcomes@;
        let ghost to_error = |refusal: SendError<M>| refusal_of::<M, ChannelId>(refusal);
        let ghost to_failure = |outcome: SendOutcome<M>| failure_of::<M, ChannelId>(outcome);
        let mut errors: Vec<NotifierError<M, ChannelId>> = Vec::new();
        for refusal in it: refused
            invariant
                it.seq() == all_refused,
                to_error == |refusal: SendError<M>| refusal_of::<M, ChannelId>(refusal),
                errors@ =~= all_refused.take(it.index() as int).map_values(to_error),
        {
            errors.push(NotifierError::SendingError(refusal));
        }
        assert(all_refused.take(all_refused.len() as int) =~= all_refused);
        assert(all_outcomes.take(0).filter_map(to_failure) =~= Seq::empty());
        for outcome in it: outcomes
            invariant
                it.seq() == all_outcomes,
                to_failure == |outcome: SendOutcome<M>| failure_of::<M, ChannelId>(outcome),
                errors@ =~= all_refused.map_values(to_error) + all_outcomes.take(
                    it.index() as int,
                ).filter_map(to_failure),
        {
            proof {
                all_outcomes.lemma_filter_map_take_succ(to_failure, it.index() as int);
            }
            match outcome {
                Ok(Ok(())) => {},
                Ok(Err(refusal)) => {
                    errors.push(NotifierError::SendingError(refusal));
                },
                Err(abort) => {
                    errors.push(NotifierError::JoiningError(abort));
                },
            }
        }
        assert(all_outcomes.take(all_outcomes.len() as int) =~= all_outcomes);
        if errors.len() == 0 {
            Ok(())
        } else {
            Err(NotifierError::WritingSendError(errors))
        }
    }

    /// The result of a wait. `observed` holds the outcome of every scheduled
    /// send, or nothing if `timeout` elapsed before all of them were in.
    pub fn settle<ChannelId>(
        refused: Vec<SendError<M>>,
        observed: Option<Vec<SendOutcome<M>>>,
        timeout: Option<Duration>,
    ) -> (result: Result<(), NotifierError<M, ChannelId>>)
        ensures
            match observed {
                Some(outcomes) => match result {
                    Ok(_) => failures::<M, ChannelId>(refused@, outcomes@).len() == 0,
                    Err(error) => {
                        &&& failures::<M, ChannelId>(refused@, outcomes@).len() > 0
                        &&& error matches NotifierError::WritingSendError(errors)
                        &&& errors@ == failures::<M, ChannelId>(refused@, outcomes@)
                    },
                },
                None => match timeout {
                    Some(duration) => result == Err::<(), NotifierError<M, ChannelId>>(
                        NotifierError::WritingTimeout(duration),
                    ),
                    None => result == Err::<(), NotifierError<M, ChannelId>>(
                        NotifierError::UnexpectedError(UnexpectedErrorKind::DurationIsMissing),
                    ),
                },
            },
    {
        match observed {
            Some(outcomes) => Self::conclude(refused, outcomes),
            None => match timeout {
                Some(duration) => Err(NotifierError::WritingTimeout(duration)),
                None => Err(NotifierError::UnexpectedError(UnexpectedErrorKind::DurationIsMissing)),
            },
        }
    }
}

impl<M: Clone + Send + 'static> WritingHandler<M> {
    /// Schedules one send per sender of `senders`: to each the message of
    /// `messages` at its position.
    fn dispatch(senders: &[MessageSender<M>], messages: Vec<M>) -> (handler: Self)
        requires
            messages@.len() == senders@.len(),
        ensures
            handler.targets() == identities(senders@),
            handler.messages() == messages@,
    {
        let ghost all = messages@;
        let mut pending: Vec<PendingSend<M>> = Vec::new();
        for msg in it: messages
            invariant
                it.seq() == all,
                all.len() == senders@.len(),
                pending@.len() == it.index(),
                targets_of(pending@) =~= identities(senders@.take(it.index() as int)),
                messages_of(pending@) =~= all.take(it.index() as int),
        {
            let i = pending.len();
            let ghost started = pending@;
            let send = PendingSend::start(&senders[i], msg);
            pending.push(send);
            proof {
                assert(targets_of(pending@) =~= targets_of(started).push(send.target()));
                assert(messages_of(pending@) =~= messages_of(started).push(send.message()));
                assert(identities(senders@.take(i + 1)) =~= identities(senders@.take(i as int)).push(
                    senders@[i as int].identity(),
                ));
                assert(all.take(i + 1) =~= all.take(i as int).push(all[i as int]));
            }
        }
        assert(senders@.take(senders@.len() as int) =~= senders@);
        assert(all.take(all.len() as int) =~= all);
        WritingHandler { pending }
    }

    /// Schedules one send per sender of `senders`, each with a clone of `msg`.
    pub fn new_cloning_broadcast(msg: M, senders: &[MessageSender<M>]) -> (handler: Self)
        ensures
            handler.targets() == identities(senders@),
            handler.messages().len() == senders@.len(),
            clones_of(msg, handler.messages()),
    {
        let mut copies: Vec<M> = Vec::new();
        while copies.len() < senders.len()
            invariant
                copies@.len() <= senders@.len(),
                forall|j: int| 0 <= j < copies@.len() ==> cloned(msg, #[trigger] copies@[j]),
            decreases senders@.len() - copies@.len(),
        {
            let copy = msg.clone();
            assert(cloned(msg, copy));
            copies.push(copy);
        }
        Self::dispatch(senders, copies)
    }
}

impl<M: Send + Sync + 'static> WritingHandler<Arc<M>> {
    /// Wraps `msg` once in a shared, reference-counted container and
    /// schedules one send per sender of `senders`, each with a handle on that
    /// container.
    pub fn new_arc_broadcast(msg: M, senders: &[MessageSender<Arc<M>>]) -> (handler: Self)
        ensures
            handler.targets() == identities(senders@),
            handler.messages().len() == senders@.len(),
            forall|i: int| 0 <= i < senders@.len() ==> *(#[trigger] handler.messages()[i]) == msg,
    {
        let shared = Arc::new(msg);
        let mut handles: Vec<Arc<M>> = Vec::new();
        while handles.len() < senders.len()
            invariant
                *shared == msg,
                handles@.len() <= senders@.len(),
                forall|j: int| 0 <= j < handles@.len() ==> *(#[trigger] handles@[j]) == msg,
            decreases senders@.len() - handles@.len(),
        {
            handles.push(shared.clone());
        }
        Self::dispatch(senders, handles)
    }
}

} // verus!
