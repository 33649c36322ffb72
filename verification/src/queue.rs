//! The bounded queues that carry the messages, and the units of work that
//! fill them. They come from `smart_channel` and `tokio`. Everything that is
//! assumed of those crates, and not proved, stands in this file.

use crate::notifier::SmartChannelId;
use smart_channel::{Receiver, Sender};
use tokio::runtime::Handle;
use tokio::sync::mpsc::error::SendError;
use tokio::task::{JoinError, JoinHandle};
use vstd::prelude::*;

verus! {

/// `smart_channel::Sender`, the sending half of a bounded queue, tagged with
/// an identity.
#[verifier::external_type_specification]
#[verifier::external_body]
#[verifier::reject_recursive_types(T)]
#[verifier::reject_recursive_types(Id)]
pub struct ExSender<T, Id: Clone + Eq + PartialEq>(Sender<T, Id>);

/// `smart_channel::Receiver`, the receiving half of a bounded queue, tagged
/// with an identity.
#[verifier::external_type_specification]
#[verifier::external_body]
#[verifier::reject_recursive_types(T)]
#[verifier::reject_recursive_types(Id)]
pub struct ExReceiver<T, Id: Clone + Eq + PartialEq>(Receiver<T, Id>);

/// `tokio::sync::mpsc::error::SendError`, the message that a closed queue
/// handed back.
#[verifier::external_type_specification]
#[verifier::external_body]
#[verifier::reject_recursive_types(T)]
pub struct ExSendError<T>(SendError<T>);

/// `tokio::task::JoinError`, the reason why a unit of work did not run to its
/// end.
#[verifier::external_type_specification]
#[verifier::external_body]
pub struct ExJoinError(JoinError);

/// `tokio::task::JoinHandle`, the handle on one scheduled unit of work.
/// Dropping it leaves the work running.
#[verifier::external_type_specification]
#[verifier::external_body]
#[verifier::reject_recursive_types(T)]
pub struct ExJoinHandle<T>(JoinHandle<T>);

/// `tokio::runtime::Handle`, a handle on a running runtime.
#[verifier::external_type_specification]
#[verifier::external_body]
pub struct ExHandle(Handle);

/// The largest capacity that a queue can be opened with.
pub const MAX_CHANNEL_SIZE: usize = usize::MAX / 8;

/// The handle on one scheduled send.
pub type SendHandle<M> = JoinHandle<Result<(), SendError<M>>>;

/// `smart_channel::channel` opens a bounded `tokio` queue and tags both halves
/// with `id`. The queue's constructor panics on a capacity of zero or above
/// [`MAX_CHANNEL_SIZE`], so both are excluded. Nothing is claimed of the two
/// halves.
pub assume_specification<T, Id: Clone + Eq + PartialEq>[ smart_channel::channel::<T, Id> ](
    channel_size: usize,
    id: Id,
) -> (halves: (Sender<T, Id>, Receiver<T, Id>))
    requires
        0 < channel_size <= MAX_CHANNEL_SIZE,
;

/// `Clone::clone` of `smart_channel::Sender`: another handle on the same
/// queue. Nothing is claimed of it.
#[verifier::external_body]
pub(crate) fn another_handle<M: Clone>(sender: &Sender<M, SmartChannelId>) -> Sender<
    M,
    SmartChannelId,
> {
    sender.clone()
}

/// `tokio::sync::mpsc::Sender::is_closed`, reached through the handle of
/// `smart_channel`: whether the receiving half has been dropped or closed. The
/// answer depends on what the holder of that half did, so nothing is claimed.
#[verifier::external_body]
pub(crate) fn is_closed<M>(sender: &Sender<M, SmartChannelId>) -> bool {
    sender.is_closed()
}

/// `tokio::runtime::Handle::try_current`: a handle on the runtime that the
/// caller runs in, if it runs in one. The call never panics. The answer
/// depends on where the caller runs, so nothing is claimed.
#[verifier::external_body]
pub(crate) fn current_runtime() -> Option<Handle> {
    Handle::try_current().ok()
}

/// `tokio::runtime::Handle::spawn_blocking`, with a unit of work that is one
/// call of `tokio::sync::mpsc::Sender::blocking_send`: the send of `msg` on
/// the queue behind `sender` starts on the blocking pool of `runtime`. It
/// waits while the queue is full and fails once the receiving half is gone.
/// Nothing is claimed of the handle.
#[verifier::external_body]
pub(crate) fn spawn_send<M: Send + 'static>(
    runtime: &Handle,
    sender: Sender<M, SmartChannelId>,
    msg: M,
) -> SendHandle<M> {
    runtime.spawn_blocking(move || sender.blocking_send(msg))
}

/// The constructor of `tokio::sync::mpsc::error::SendError`: the error that
/// holds a message that was not sent. Nothing is claimed of it.
#[verifier::external_body]
pub(crate) fn undelivered<M>(msg: M) -> SendError<M> {
    SendError(msg)
}

} // verus!
