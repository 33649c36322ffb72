use std::time::Duration;
use tokio::sync::mpsc::error::SendError;
use tokio::task::JoinError;
use vstd::prelude::*;

verus! {

/// Conditions that the hub proves unreachable. A value of this type reaching a
/// caller is a defect, not an error to recover from.
#[derive(Debug)]
pub enum UnexpectedErrorKind {
    /// A wait timed out although it was given no duration.
    DurationIsMissing,
    /// A running topic had no entry in the registry during an unsubscribe.
    InvalidChannelStateUnsubscribe,
    /// A subscribed receiver had no sender in its topic during an unsubscribe.
    SenderIsMissing,
}

/// Everything that an operation of the hub, or the wait on a multicast, can
/// report. `M` is the message type and `ChannelId` the type of the topic keys.
#[derive(Debug)]
#[verifier::reject_recursive_types(M)]
pub enum NotifierError<M, ChannelId> {
    /// One subscriber's queue was closed; the error holds the undelivered
    /// message.
    SendingError(SendError<M>),
    /// One scheduled send did not run to its end.
    JoiningError(JoinError),
    /// All the sending and joining errors of one multicast.
    WritingSendError(Vec<NotifierError<M, ChannelId>>),
    /// The wait on a multicast gave up after this duration.
    WritingTimeout(Duration),
    /// A condition that cannot occur did occur.
    UnexpectedError(UnexpectedErrorKind),
    /// The receiver is not subscribed to this topic.
    NotSubscribed(ChannelId),
    /// The `NotSubscribed` errors of an unsubscribe over several topics.
    NotSubscribedMultiple(Vec<NotifierError<M, ChannelId>>),
    /// A send aimed at a topic that nobody ever subscribed to.
    ChannelUninitialized(ChannelId),
    /// Reserved: a send aimed at a topic without subscribers. Such a send is a
    /// successful no-op, so no operation returns this.
    ChannelOver(ChannelId),
    /// A shutdown aimed at a topic that the registry does not hold.
    ChannelNotExist(ChannelId),
}

} // verus!
