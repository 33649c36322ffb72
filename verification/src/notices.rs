use crate::endpoint::MessageSender;
use crate::notifier::{identities, SmartChannelId};
use crate::writing_handler::{clones_of, WritingHandler};
use vstd::prelude::*;

verus! {

/// One fan-out that the hub started of its own accord, to the waiters of a
/// topic or to the subscribers of a topic that is shut down.
pub enum Notice<M, K> {
    /// The topic got a subscriber: a unit value went to each of `waiters`.
    Creation { topic: K, waiters: Seq<SmartChannelId> },
    /// The sender `departed` left the topic: a copy of it went to each of
    /// `waiters`.
    Destruction { topic: K, departed: SmartChannelId, waiters: Seq<SmartChannelId> },
    /// The topic was shut down: a clone of `close` went to each of
    /// `subscribers`, which the topic held until then.
    Closing { topic: K, subscribers: Seq<SmartChannelId>, close: M },
}

/// The record of the fan-outs that a hub started of its own accord, in their
/// order. The record grows only where such a fan-out is started: each function
/// that appends a notice starts the sends and returns their handler.
#[verifier::reject_recursive_types(M)]
#[verifier::reject_recursive_types(K)]
pub struct Notices<M, K> {
    told: Ghost<Seq<Notice<M, K>>>,
}

impl<M, K> View for Notices<M, K> {
    type V = Seq<Notice<M, K>>;

    closed spec fn view(&self) -> Seq<Notice<M, K>> {
        self.told@
    }
}

impl<M, K> Notices<M, K> {
    /// The record of a hub that has started nothing.
    pub fn new() -> (notices: Self)
        ensures
            notices@ == Seq::<Notice<M, K>>::empty(),
    {
        Notices { told: Ghost(Seq::empty()) }
    }

    /// Sends a unit value to each of `waiters`, which wait for the
    /// subscriptions to `topic`, and notes it.
    pub fn creation(&mut self, topic: &K, waiters: &[MessageSender<()>]) -> (handler: WritingHandler<
        (),
    >)
        ensures
            final(self)@ == old(self)@.push(
                Notice::Creation { topic: *topic, waiters: identities(waiters@) },
            ),
            handler.targets() == identities(waiters@),
            handler.messages().len() == waiters@.len(),
    {
        let handler = WritingHandler::new_cloning_broadcast((), waiters);
        self.told = Ghost(
            self.told@.push(Notice::Creation { topic: *topic, waiters: handler.targets() }),
        );
        handler
    }
}

impl<M: Clone + Send + 'static, K> Notices<M, K> {
    /// Sends a copy of `departed`, which has left `topic`, to each of
    /// `waiters`, which wait for the departures from `topic`, and notes it.
    pub fn destruction(
        &mut self,
        topic: &K,
        departed: MessageSender<M>,
        waiters: &[MessageSender<MessageSender<M>>],
    ) -> (handler: WritingHandler<MessageSender<M>>)
        ensures
            final(self)@ == old(self)@.push(
                Notice::Destruction {
                    topic: *topic,
                    departed: departed.identity(),
                    waiters: identities(waiters@),
                },
            ),
            handler.targets() == identities(waiters@),
            handler.messages().len() == waiters@.len(),
            forall|i: int|
                0 <= i < handler.messages().len() ==> (#[trigger] handler.messages()[i]).identity()
                    == departed.identity(),
    {
        let ghost identity = departed.identity();
        let handler = WritingHandler::new_cloning_broadcast(departed, waiters);
        assert forall|i: int| 0 <= i < handler.messages().len() implies (
        #[trigger] handler.messages()[i]).identity() == identity by {
            assert(cloned(departed, handler.messages()[i]));
        }
        self.told = Ghost(
            self.told@.push(
                Notice::Destruction {
                    topic: *topic,
                    departed: identity,
                    waiters: handler.targets(),
                },
            ),
        );
        handler
    }

    /// Sends a clone of `close` to each of `subscribers`, which `topic` held
    /// until it was shut down, and notes it.
    pub fn closing(&mut self, topic: &K, close: M, subscribers: &[MessageSender<M>]) -> (handler:
        WritingHandler<M>)
        ensures
            final(self)@ == old(self)@.push(
                Notice::Closing { topic: *topic, subscribers: identities(subscribers@), close },
            ),
            handler.targets() == identities(subscribers@),
            handler.messages().len() == subscribers@.len(),
            clones_of(close, handler.messages()),
    {
        let ghost value = close;
        let handler = WritingHandler::new_cloning_broadcast(close, subscribers);
        self.told = Ghost(
            self.told@.push(
                Notice::Closing { topic: *topic, subscribers: handler.targets(), close: value },
            ),
        );
        handler
    }
}

} // verus!
