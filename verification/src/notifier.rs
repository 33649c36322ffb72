use crate::endpoint::open;
pub use crate::endpoint::{MessageReceiver, MessageSender};
use crate::queue::MAX_CHANNEL_SIZE;
use crate::error::{NotifierError, UnexpectedErrorKind};
use crate::closable_trait::ClosableMessage;
use crate::hub_view::{
    enlisted, keep_open, listed, other_than, swept, HubView, Registry,
};
use crate::notices::{Notice, Notices};
use crate::writing_handler::{clones_of, WritingHandler};
pub use smart_channel::{Receiver, Sender};
use std::collections::HashMap;
use std::hash::Hash;
use std::sync::Arc;
use vstd::prelude::*;
use vstd::std_specs::hash::obeys_key_model;
use vstd::std_specs::iter::IteratorSpec;

verus! {

/// The capacity of the queue of a waiter.
pub const NOTIFIER_CHANNEL_SIZE: usize = 10;

/// The state of a topic, derived from its entry in the registry.
#[derive(Clone, Copy, PartialEq, Eq, Debug, Structural)]
pub enum ChannelState {
    /// Nobody ever subscribed to the topic, or it was shut down.
    Uninitialised,
    /// The topic has at least one subscriber.
    Running,
    /// The topic had subscribers, and has none left.
    Over,
}

/// The identity of one pair of endpoints: the number of the pair among those
/// that its hub opened, and the discriminator of that hub.
#[derive(Clone, Copy, PartialEq, Eq, Debug, Structural)]
pub struct SmartChannelId {
    /// How many identities the hub had issued before this one.
    pub channel_counter: usize,
    /// The discriminator of the hub that issued this identity.
    pub hub_discriminator: usize,
}

/// A sender that was taken out of the hub, as a destruction waiter gets it.
pub type DeadSender<M> = MessageSender<M>;

/// The receiver that `get_creation_waiter` returns.
pub type CreationWaiter = MessageReceiver<()>;

/// The receiver that `get_destruction_waiter` returns.
pub type DestructionWaiter<M> = MessageReceiver<DeadSender<M>>;

/// The identities of the endpoints of `list`, in their order.
pub open spec fn identities<T>(list: Seq<MessageSender<T>>) -> Seq<SmartChannelId> {
    list.map_values(|sender: MessageSender<T>| sender.identity())
}

/// The registry that a map from topics to lists of endpoints stands for.
pub open spec fn registry_of<T, K>(map: Map<K, Vec<MessageSender<T>>>) -> Registry<K> {
    map.map_values(|list: Vec<MessageSender<T>>| identities(list@))
}

/// The error of an unsubscribe from a topic that the receiver is not
/// subscribed to.
pub open spec fn not_subscribed<M, K>(k: K) -> NotifierError<M, K> {
    NotifierError::NotSubscribed(k)
}

/// A clone of a topic key is the key itself.
pub open spec fn faithful_clone<K: Clone>() -> bool {
    forall|key: K, copy: K| #[trigger] cloned(key, copy) ==> key == copy
}

/// The hub: for each topic the senders of its subscribers, and the senders of
/// those who wait for a subscriber to come or to go.
///
/// The model of a hub has two parts. Its view is the registry: who is listed
/// where, and which identities were issued. `notices()` is the record of the
/// fan-outs that the hub started of its own accord. Every operation that
/// changes the hub states both.
///
/// `ChannelId` is the type of the topic keys. Its hashing and equality must be
/// those of a key of a hash table (`obeys_key_model`).
#[verifier::reject_recursive_types(M)]
#[verifier::reject_recursive_types(ChannelId)]
pub struct NotifierHub<M, ChannelId: Eq + Hash> {
    /// The discriminator put in every identity.
    hub_discriminator: usize,
    /// The number of identities issued so far.
    connection_id: usize,
    /// The senders of the subscribers of each topic.
    senders: HashMap<ChannelId, Vec<MessageSender<M>>>,
    /// The senders of the creation waiters of each topic.
    creation_senders: HashMap<ChannelId, Vec<MessageSender<()>>>,
    /// The senders of the destruction waiters of each topic.
    destruction_senders: HashMap<ChannelId, Vec<MessageSender<DeadSender<M>>>>,
    /// What the hub has told its waiters so far.
    notices: Notices<M, ChannelId>,
}

impl<M, ChannelId: Eq + Hash> View for NotifierHub<M, ChannelId> {
    type V = HubView<ChannelId>;

    closed spec fn view(&self) -> HubView<ChannelId> {
        HubView {
            topics: registry_of(self.senders@),
            creation_waiters: registry_of(self.creation_senders@),
            destruction_waiters: registry_of(self.destruction_senders@),
            issued: self.connection_id as nat,
            discriminator: self.hub_discriminator,
        }
    }
}

impl<M, ChannelId: Eq + Hash> NotifierHub<M, ChannelId> {
    /// The topic keys behave as keys of a hash table, and every identity that
    /// the hub holds was issued by it.
    pub open spec fn wf(&self) -> bool {
        &&& obeys_key_model::<ChannelId>()
        &&& self@.wf()
    }

    /// What the hub has told the waiters of its topics since it was built,
    /// in the order of the telling. The hub starts each of these fan-outs and
    /// does not wait for it.
    pub closed spec fn notices(&self) -> Seq<Notice<M, ChannelId>> {
        self.notices@
    }

    /// Returns an empty hub that puts `discriminator` in every identity it
    /// issues. Two hubs never issue the same identity if their discriminators
    /// differ: a [`crate::allocator::HubAllocator`] hands each hub its own.
    pub fn new(discriminator: usize) -> (hub: Self)
        requires
            obeys_key_model::<ChannelId>(),
        ensures
            hub.wf(),
            hub@ == HubView::<ChannelId>::empty(discriminator),
            hub.notices() == Seq::<Notice<M, ChannelId>>::empty(),
    {
        let hub = NotifierHub {
            hub_discriminator: discriminator,
            connection_id: 0,
            senders: HashMap::new(),
            creation_senders: HashMap::new(),
            destruction_senders: HashMap::new(),
            notices: Notices::new(),
        };
        assert(hub@ =~= HubView::<ChannelId>::empty(discriminator));
        hub
    }

    /// Issues a new identity: the count of those issued so far, with the
    /// discriminator of the hub.
    pub fn get_new_id(&mut self) -> (id: SmartChannelId)
        requires
            old(self).wf(),
            old(self)@.issued < usize::MAX,
        ensures
            final(self).wf(),
            id == old(self)@.next_identity(),
            final(self)@ == old(self)@.issue(),
            final(self).notices() == old(self).notices(),
    {
        let channel_counter = self.connection_id;
        self.connection_id += 1;
        SmartChannelId { channel_counter, hub_discriminator: self.hub_discriminator }
    }

    /// Returns the number of identities that the hub has issued. Once it
    /// reaches `usize::MAX` the hub can open no further queue.
    pub fn issued(&self) -> (count: usize)
        ensures
            count == self@.issued,
    {
        self.connection_id
    }

    /// Returns `true` if the given receiver is subscribed to the topic.
    pub fn is_subscribed(&self, channel: &ChannelId, receiver: &MessageReceiver<M>) -> (subscribed:
        bool)
        requires
            self.wf(),
        ensures
            subscribed == self@.is_subscribed(*channel, receiver.identity()),
    {
        match self.senders.get(channel) {
            Some(list) => {
                let position = position_bound(list, receiver);
                proof {
                    if let Some(i) = position {
                        assert(identities(list@)[i as int] == receiver.identity());
                    }
                }
                position.is_some()
            },
            None => false,
        }
    }

    /// Returns the number of waiters that `map` holds for the topic.
    pub fn number_of_waiter<T>(id: &ChannelId, map: &HashMap<ChannelId, Vec<T>>) -> (number: usize)
        requires
            obeys_key_model::<ChannelId>(),
        ensures
            number == (if map@.contains_key(*id) {
                map@[*id]@.len()
            } else {
                0
            }),
    {
        match map.get(id) {
            Some(waiters) => waiters.len(),
            None => 0,
        }
    }

    /// Returns the number of creation waiters of the topic.
    pub fn number_of_creation_waiter(&self, id: &ChannelId) -> (number: usize)
        requires
            self.wf(),
        ensures
            number == listed(self@.creation_waiters, *id).len(),
    {
        Self::number_of_waiter(id, &self.creation_senders)
    }

    /// Returns the number of destruction waiters of the topic.
    pub fn number_of_destruction_waiter(&self, id: &ChannelId) -> (number: usize)
        requires
            self.wf(),
        ensures
            number == listed(self@.destruction_waiters, *id).len(),
    {
        Self::number_of_waiter(id, &self.destruction_senders)
    }

    /// Returns the current state of the topic.
    pub fn channel_state(&self, id: &ChannelId) -> (state: ChannelState)
        requires
            self.wf(),
        ensures
            state == self@.state(*id),
    {
        match self.senders.get(id) {
            Some(list) => if list.len() > 0 {
                ChannelState::Running
            } else {
                ChannelState::Over
            },
            None => ChannelState::Uninitialised,
        }
    }

    /// Returns the number of subscribers of the topic: 0 if it is
    /// uninitialised or over.
    pub fn channel_number_subscriber(&self, id: &ChannelId) -> (number: usize)
        requires
            self.wf(),
        ensures
            number == self@.number_subscriber(*id),
    {
        match self.senders.get(id) {
            Some(list) => list.len(),
            None => 0,
        }
    }
}

impl<M, ChannelId: Eq + Hash> NotifierHub<M, ChannelId> {
    /// Sends a unit value to every creation waiter of the topic, as happens
    /// each time the topic gets a subscriber.
    pub fn notify_creation(&mut self, id: &ChannelId) -> (handler: WritingHandler<()>)
        requires
            old(self).wf(),
        ensures
            final(self).wf(),
            final(self)@ == old(self)@,
            final(self).notices() == old(self).notices().push(old(self)@.creation_notice(*id)),
            handler.targets() == listed(old(self)@.creation_waiters, *id),
            handler.messages().len() == handler.targets().len(),
    {
        match self.creation_senders.get(id) {
            Some(waiters) => self.notices.creation(id, waiters.as_slice()),
            None => {
                let nobody: Vec<MessageSender<()>> = Vec::new();
                assert(identities(nobody@) =~= Seq::empty());
                self.notices.creation(id, nobody.as_slice())
            },
        }
    }
}

impl<M, ChannelId> NotifierHub<M, ChannelId> where
    M: Send + Clone + 'static,
    ChannelId: Eq + Hash + Clone,
 {
    /// Hands `dead_sender`, which has left the topic, to the destruction
    /// waiters of the topic.
    fn notify_destruction(&mut self, id: &ChannelId, dead_sender: DeadSender<M>) -> (handler:
        WritingHandler<DeadSender<M>>)
        requires
            old(self).wf(),
        ensures
            final(self).wf(),
            final(self)@ == old(self)@,
            final(self).notices() == old(self).notices().push(
                old(self)@.destruction_notice(*id, dead_sender.identity()),
            ),
            handler.targets() == listed(old(self)@.destruction_waiters, *id),
            handler.messages().len() == handler.targets().len(),
            forall|i: int|
                0 <= i < handler.messages().len() ==> (#[trigger] handler.messages()[i]).identity()
                    == dead_sender.identity(),
    {
        match self.destruction_senders.get(id) {
            Some(waiters) => self.notices.destruction(id, dead_sender, waiters.as_slice()),
            None => {
                let nobody: Vec<MessageSender<DeadSender<M>>> = Vec::new();
                assert(identities(nobody@) =~= Seq::empty());
                self.notices.destruction(id, dead_sender, nobody.as_slice())
            },
        }
    }

    /// Takes the sender that is bound to `receiver` out of the topic and hands
    /// it to the destruction waiters of the topic. Returns the new state of
    /// the topic, or `NotSubscribed` if `receiver` is not subscribed to it.
    pub fn unsubscribe(&mut self, id: &ChannelId, receiver: &MessageReceiver<M>) -> (result: Result<
        ChannelState,
        NotifierError<M, ChannelId>,
    >)
        requires
            old(self).wf(),
            faithful_clone::<ChannelId>(),
        ensures
            final(self).wf(),
            final(self)@ == old(self)@.unsubscribe(*id, receiver.identity()),
            result == (if old(self)@.is_subscribed(*id, receiver.identity()) {
                Ok::<ChannelState, NotifierError<M, ChannelId>>(final(self)@.state(*id))
            } else {
                Err::<ChannelState, NotifierError<M, ChannelId>>(NotifierError::NotSubscribed(*id))
            }),
            final(self).notices() == (if old(self)@.is_subscribed(*id, receiver.identity()) {
                old(self).notices().push(old(self)@.destruction_notice(*id, receiver.identity()))
            } else {
                old(self).notices()
            }),
    {
        proof {
            old(self)@.lemma_unsubscribe_wf(*id, receiver.identity());
        }
        match self.channel_state(id) {
            ChannelState::Running => {
                if !self.is_subscribed(id, receiver) {
                    return Err(NotifierError::NotSubscribed(copy_key(id)));
                }
                match self.senders.remove(id) {
                    Some(senders) => {
                        let (kept, mut bound) = split_bound(senders, receiver);
                        if bound.len() == 0 {
                            self.senders.insert(copy_key(id), kept);
                            return Err(
                                NotifierError::UnexpectedError(UnexpectedErrorKind::SenderIsMissing),
                            );
                        }
                        let sender = bound.remove(0);
                        self.senders.insert(copy_key(id), kept);
                        assert(self@ =~= old(self)@.unsubscribe(*id, receiver.identity()));
                        let _ = self.notify_destruction(id, sender);
                        Ok(self.channel_state(id))
                    },
                    None => Err(
                        NotifierError::UnexpectedError(
                            UnexpectedErrorKind::InvalidChannelStateUnsubscribe,
                        ),
                    ),
                }
            },
            _ => Err(NotifierError::NotSubscribed(copy_key(id))),
        }
    }

    /// Unsubscribes `receiver` from every topic of `ids` in turn, whatever
    /// happens at the others. Returns `NotSubscribedMultiple` with one
    /// `NotSubscribed` for each topic at whose turn `receiver` was not
    /// subscribed to it; the other topics have been left all the same.
    pub fn unsubscribe_multiple(&mut self, ids: &[ChannelId], receiver: &MessageReceiver<M>) -> (result:
        Result<(), NotifierError<M, ChannelId>>)
        requires
            old(self).wf(),
            faithful_clone::<ChannelId>(),
        ensures
            final(self).wf(),
            final(self)@ == old(self)@.unsubscribe_multiple(ids@, receiver.identity()),
            match result {
                Ok(_) => old(self)@.refusals(ids@, receiver.identity()).len() == 0,
                Err(error) => {
                    &&& old(self)@.refusals(ids@, receiver.identity()).len() > 0
                    &&& error matches NotifierError::NotSubscribedMultiple(errors)
                    &&& errors@ == old(self)@.refusals(ids@, receiver.identity()).map_values(
                        |k: ChannelId| not_subscribed::<M, ChannelId>(k),
                    )
                },
            },
            final(self).notices() == old(self).notices() + old(self)@.unsubscribe_notices(
                ids@,
                receiver.identity(),
            ),
    {
        let ghost start = self@;
        let ghost told = self.notices();
        let ghost rid = receiver.identity();
        let ghost to_error = |k: ChannelId| not_subscribed::<M, ChannelId>(k);
        let mut errors: Vec<NotifierError<M, ChannelId>> = Vec::new();
        let mut i: usize = 0;
        while i < ids.len()
            invariant
                i <= ids@.len(),
                self.wf(),
                faithful_clone::<ChannelId>(),
                rid == receiver.identity(),
                to_error == |k: ChannelId| not_subscribed::<M, ChannelId>(k),
                self@ == start.unsubscribe_multiple(ids@.take(i as int), rid),
                errors@ =~= start.refusals(ids@.take(i as int), rid).map_values(to_error),
                self.notices() =~= told + start.unsubscribe_notices(ids@.take(i as int), rid),
            decreases ids@.len() - i,
        {
            assert(ids@.take(i + 1).drop_last() =~= ids@.take(i as int));
            proof {
                start.lemma_unsubscribe_multiple(ids@.take(i as int), rid);
            }
            if let Err(e) = self.unsubscribe(&ids[i], receiver) {
                errors.push(e);
            }
            i += 1;
        }
        assert(ids@.take(i as int) =~= ids@);
        if errors.len() == 0 {
            Ok(())
        } else {
            Err(NotifierError::NotSubscribedMultiple(errors))
        }
    }

    /// Unsubscribes `receiver` from every topic that it is subscribed to, and
    /// returns those topics, each once.
    pub fn unsubscribe_all(&mut self, receiver: &MessageReceiver<M>) -> (channels: Vec<ChannelId>)
        requires
            old(self).wf(),
            faithful_clone::<ChannelId>(),
        ensures
            final(self).wf(),
            channels@.no_duplicates(),
            channels@.to_set() == old(self)@.subscriptions(receiver.identity()),
            final(self)@ == old(self)@.unsubscribe_all(receiver.identity()),
            final(self).notices() == old(self).notices() + old(self)@.unsubscribe_notices(
                channels@,
                receiver.identity(),
            ),
    {
        let sub_list = self.subscribed_list(receiver);
        proof {
            self@.lemma_unsubscribe_subscriptions(sub_list@, receiver.identity());
        }
        if sub_list.len() > 0 {
            let _ = self.unsubscribe_multiple(sub_list.as_slice(), receiver);
        } else {
            assert(self.notices() =~= self.notices() + self@.unsubscribe_notices(
                sub_list@,
                receiver.identity(),
            ));
        }
        sub_list
    }

    /// Sends a clone of `msg` to every subscriber of every topic. A
    /// subscriber of two topics gets it twice.
    pub fn broadcast_clone(&self, msg: M) -> (handler: WritingHandler<M>)
        requires
            self.wf(),
            faithful_clone::<ChannelId>(),
        ensures
            exists|order: Seq<ChannelId>| self@.walks(order) && handler.targets() == self@.fan_out(order),
            handler.messages().len() == handler.targets().len(),
            clones_of(msg, handler.messages()),
    {
        let senders = gather(&self.senders);
        proof {
            let order = choose|order: Seq<ChannelId>| covers(self.senders@, order, identities(senders@));
            assert(registry_of(self.senders@).dom() =~= self.senders@.dom());
            assert(self@.walks(order));
        }
        WritingHandler::new_cloning_broadcast(msg, senders.as_slice())
    }

    /// Sends a clone of `msg` to every subscriber of the topic. A topic that
    /// has lost its subscribers yields a handler without targets; a topic
    /// without an entry yields `ChannelUninitialized`.
    pub fn clone_send(&self, msg: M, id: &ChannelId) -> (result: Result<
        WritingHandler<M>,
        NotifierError<M, ChannelId>,
    >)
        requires
            self.wf(),
            faithful_clone::<ChannelId>(),
        ensures
            match result {
                Ok(handler) => {
                    &&& self@.topics.contains_key(*id)
                    &&& handler.targets() == self@.topics[*id]
                    &&& handler.messages().len() == handler.targets().len()
                    &&& clones_of(msg, handler.messages())
                },
                Err(error) => {
                    &&& !self@.topics.contains_key(*id)
                    &&& error == NotifierError::<M, ChannelId>::ChannelUninitialized(*id)
                },
            },
    {
        match self.senders.get(id) {
            Some(senders) => Ok(WritingHandler::new_cloning_broadcast(msg, senders.as_slice())),
            None => Err(NotifierError::ChannelUninitialized(copy_key(id))),
        }
    }

    /// Deletes the entry of the topic, hands each of its senders to the
    /// destruction waiters of the topic, and sends a clone of `close` to each
    /// of them. A topic without an entry yields `ChannelNotExist`.
    pub fn shutdown_with(&mut self, channel: &ChannelId, close: M) -> (result: Result<
        WritingHandler<M>,
        NotifierError<M, ChannelId>,
    >)
        requires
            old(self).wf(),
            faithful_clone::<ChannelId>(),
        ensures
            final(self).wf(),
            match result {
                Ok(handler) => {
                    &&& old(self)@.topics.contains_key(*channel)
                    &&& final(self)@ == old(self)@.shutdown(*channel)
                    &&& handler.targets() == old(self)@.topics[*channel]
                    &&& handler.messages().len() == handler.targets().len()
                    &&& clones_of(close, handler.messages())
                },
                Err(error) => {
                    &&& !old(self)@.topics.contains_key(*channel)
                    &&& final(self)@ == old(self)@
                    &&& error == NotifierError::<M, ChannelId>::ChannelNotExist(*channel)
                },
            },
            final(self).notices() == (if old(self)@.topics.contains_key(*channel) {
                old(self).notices() + old(self)@.shutdown_notices(*channel, close)
            } else {
                old(self).notices()
            }),
    {
        proof {
            self@.lemma_shutdown_wf(*channel);
        }
        let ghost start = self@;
        let ghost told = self.notices();
        let ghost to_notice = |id: SmartChannelId| start.destruction_notice::<M>(*channel, id);
        match self.senders.remove(channel) {
            Some(dead_senders) => {
                assert(self@ =~= old(self)@.shutdown(*channel));
                let ghost departed = identities(dead_senders@);
                let mut i: usize = 0;
                while i < dead_senders.len()
                    invariant
                        i <= dead_senders@.len(),
                        self.wf(),
                        self@ == start.shutdown(*channel),
                        departed == identities(dead_senders@),
                        to_notice == |id: SmartChannelId| start.destruction_notice::<M>(*channel, id),
                        self.notices() =~= told + departed.take(i as int).map_values(to_notice),
                    decreases dead_senders@.len() - i,
                {
                    let _ = self.notify_destruction(channel, dead_senders[i].clone());
                    i += 1;
                }
                assert(departed.take(i as int) =~= departed);
                let handler = self.notices.closing(channel, close, dead_senders.as_slice());
                assert(self.notices() =~= told + start.shutdown_notices(*channel, close));
                assert(self@ =~= old(self)@.shutdown(*channel));
                Ok(handler)
            },
            None => {
                assert(self@ =~= old(self)@);
                Err(NotifierError::ChannelNotExist(copy_key(channel)))
            },
        }
    }
}

impl<M, ChannelId> NotifierHub<M, ChannelId> where
    M: Send + Clone + ClosableMessage + 'static,
    ChannelId: Eq + Hash + Clone,
 {
    /// Shuts the topic down with the close message of `M`: deletes its entry,
    /// hands each of its senders to the destruction waiters of the topic, and
    /// sends a clone of the close message to each of them. A topic without an
    /// entry yields `ChannelNotExist`.
    pub fn shutdown_clone(&mut self, channel: &ChannelId) -> (result: Result<
        WritingHandler<M>,
        NotifierError<M, ChannelId>,
    >)
        requires
            old(self).wf(),
            faithful_clone::<ChannelId>(),
        ensures
            final(self).wf(),
            match result {
                Ok(handler) => {
                    &&& old(self)@.topics.contains_key(*channel)
                    &&& final(self)@ == old(self)@.shutdown(*channel)
                    &&& handler.targets() == old(self)@.topics[*channel]
                    &&& handler.messages().len() == handler.targets().len()
                    &&& exists|close: M|
                        {
                            &&& #[trigger] clones_of(close, handler.messages())
                            &&& final(self).notices() == old(self).notices()
                                + old(self)@.shutdown_notices(*channel, close)
                        }
                },
                Err(error) => {
                    &&& !old(self)@.topics.contains_key(*channel)
                    &&& final(self)@ == old(self)@
                    &&& final(self).notices() == old(self).notices()
                    &&& error == NotifierError::<M, ChannelId>::ChannelNotExist(*channel)
                },
            },
    {
        self.shutdown_with(channel, M::get_close_message())
    }

    /// Shuts every topic down, each with the close message of `M`.
    pub fn shutdown_all_clone(&mut self)
        requires
            old(self).wf(),
            faithful_clone::<ChannelId>(),
        ensures
            final(self).wf(),
            final(self)@ == old(self)@.shutdown_all(),
            exists|order: Seq<ChannelId>, closes: Seq<M>|
                {
                    &&& old(self)@.walks(order)
                    &&& closes.len() == order.len()
                    &&& final(self).notices() == old(self).notices() + #[trigger] old(
                        self,
                    )@.shutdown_all_notices(order, closes)
                },
    {
        let ghost start = self@;
        let ghost told = self.notices();
        let ghost mut closes: Seq<M> = Seq::empty();
        let channels = self.get_channels();
        let mut i: usize = 0;
        assert(start.shutdown_all_notices(channels@.take(0), closes) =~= Seq::empty());
        while i < channels.len()
            invariant
                i <= channels@.len(),
                self.wf(),
                faithful_clone::<ChannelId>(),
                start.walks(channels@),
                closes.len() == i,
                self@ == (HubView {
                    topics: start.topics.remove_keys(channels@.take(i as int).to_set()),
                    ..start
                }),
                self.notices() =~= told + start.shutdown_all_notices(channels@.take(i as int), closes),
            decreases channels@.len() - i,
        {
            let ghost seen = channels@.take(i as int);
            let ghost key = channels@[i as int];
            let ghost before = self@;
            let ghost noted = self.notices();
            proof {
                assert(channels@.take(i + 1) =~= seen.push(key));
                assert forall|k: ChannelId|
                    channels@.take(i + 1).to_set().contains(k) <==> seen.to_set().contains(k) || k
                        == key by {
                    vstd::seq_lib::lemma_seq_contains_after_push(seen, key, k);
                }
                if seen.contains(key) {
                    let j = choose|j: int| 0 <= j < seen.len() && seen[j] == key;
                    assert(channels@[j] == channels@[i as int]);
                }
                assert(channels@.to_set().contains(key));
                assert(before.topics.contains_key(key));
            }
            let _ = self.shutdown_clone(&channels[i]);
            proof {
                let close = choose|close: M|
                    self.notices() == noted + before.shutdown_notices(key, close);
                assert(before.shutdown_notices(key, close) =~= start.shutdown_notices(key, close));
                let parts = Seq::new(
                    seen.len(),
                    |j: int| start.shutdown_notices(seen[j], closes[j]),
                );
                let longer = closes.push(close);
                let more = Seq::new(
                    (i + 1) as nat,
                    |j: int| start.shutdown_notices(channels@.take(i + 1)[j], longer[j]),
                );
                assert(more =~= parts.push(start.shutdown_notices(key, close)));
                parts.lemma_flatten_push(start.shutdown_notices(key, close));
                closes = longer;
                assert(self@.topics =~= start.topics.remove_keys(channels@.take(i + 1).to_set()));
            }
            i += 1;
        }
        assert(channels@.take(i as int) =~= channels@);
        assert(self@.topics =~= Map::<ChannelId, Seq<SmartChannelId>>::empty());
        assert(self.notices() == told + start.shutdown_all_notices(channels@, closes));
    }
}

impl<M, ChannelId> NotifierHub<Arc<M>, ChannelId> where
    M: Send + Sync + 'static,
    ChannelId: Eq + Hash + Clone,
 {
    /// Wraps `msg` once in a shared container and sends a handle on it to
    /// every subscriber of every topic. A subscriber of two topics gets it
    /// twice.
    pub fn broadcast_arc(&self, msg: M) -> (handler: WritingHandler<Arc<M>>)
        requires
            self.wf(),
            faithful_clone::<ChannelId>(),
        ensures
            exists|order: Seq<ChannelId>| self@.walks(order) && handler.targets() == self@.fan_out(order),
            handler.messages().len() == handler.targets().len(),
            forall|i: int| 0 <= i < handler.messages().len() ==> *(#[trigger] handler.messages()[i]) == msg,
    {
        let senders = gather(&self.senders);
        proof {
            let order = choose|order: Seq<ChannelId>| covers(self.senders@, order, identities(senders@));
            assert(registry_of(self.senders@).dom() =~= self.senders@.dom());
            assert(self@.walks(order));
        }
        WritingHandler::new_arc_broadcast(msg, senders.as_slice())
    }

    /// Wraps `msg` once in a shared container and sends a handle on it to
    /// every subscriber of the topic. A topic that has lost its subscribers
    /// yields a handler without targets; a topic without an entry yields
    /// `ChannelUninitialized`.
    pub fn arc_send(&self, msg: M, id: &ChannelId) -> (result: Result<
        WritingHandler<Arc<M>>,
        NotifierError<Arc<M>, ChannelId>,
    >)
        requires
            self.wf(),
            faithful_clone::<ChannelId>(),
        ensures
            match result {
                Ok(handler) => {
                    &&& self@.topics.contains_key(*id)
                    &&& handler.targets() == self@.topics[*id]
                    &&& handler.messages().len() == handler.targets().len()
                    &&& forall|i: int|
                        0 <= i < handler.messages().len() ==> *(#[trigger] handler.messages()[i])
                            == msg
                },
                Err(error) => {
                    &&& !self@.topics.contains_key(*id)
                    &&& error == NotifierError::<Arc<M>, ChannelId>::ChannelUninitialized(*id)
                },
            },
    {
        match self.senders.get(id) {
            Some(senders) => Ok(WritingHandler::new_arc_broadcast(msg, senders.as_slice())),
            None => Err(NotifierError::ChannelUninitialized(copy_key(id))),
        }
    }
}

impl<M, ChannelId: Eq + Hash + Clone> NotifierHub<M, ChannelId> {
    /// Returns every topic that has an entry in the registry, each once, in
    /// no particular order.
    pub fn get_channels(&self) -> (channels: Vec<ChannelId>)
        requires
            self.wf(),
            faithful_clone::<ChannelId>(),
        ensures
            self@.walks(channels@),
    {
        let channels = keys_of(&self.senders);
        assert(registry_of(self.senders@).dom() =~= self.senders@.dom());
        channels
    }

    /// Returns the topics that `receiver` is subscribed to, each once, in no
    /// particular order.
    pub fn subscribed_list(&self, receiver: &MessageReceiver<M>) -> (channels: Vec<ChannelId>)
        requires
            self.wf(),
            faithful_clone::<ChannelId>(),
        ensures
            channels@.no_duplicates(),
            channels@.to_set() == self@.subscriptions(receiver.identity()),
    {
        let keys = self.get_channels();
        let mut channels: Vec<ChannelId> = Vec::new();
        let mut i: usize = 0;
        while i < keys.len()
            invariant
                i <= keys@.len(),
                self.wf(),
                faithful_clone::<ChannelId>(),
                self@.walks(keys@),
                channels@.no_duplicates(),
                forall|k: ChannelId|
                    channels@.contains(k) <==> keys@.take(i as int).contains(k) && self@.is_subscribed(
                        k,
                        receiver.identity(),
                    ),
            decreases keys@.len() - i,
        {
            let ghost before = channels@;
            let ghost seen = keys@.take(i as int);
            let ghost key = keys@[i as int];
            proof {
                assert(keys@.take(i + 1) =~= seen.push(key));
                if seen.contains(key) {
                    let j = choose|j: int| 0 <= j < seen.len() && seen[j] == key;
                    assert(keys@[j] == keys@[i as int]);
                }
            }
            if self.is_subscribed(&keys[i], receiver) {
                channels.push(copy_key(&keys[i]));
                assert(!before.contains(key));
                assert(channels@ == before.push(key));
            }
            proof {
                assert forall|k: ChannelId|
                    channels@.contains(k) <==> keys@.take(i + 1).contains(k) && self@.is_subscribed(
                        k,
                        receiver.identity(),
                    ) by {
                    vstd::seq_lib::lemma_seq_contains_after_push(seen, key, k);
                    vstd::seq_lib::lemma_seq_contains_after_push(before, key, k);
                }
            }
            i += 1;
        }
        proof {
            assert(keys@.take(i as int) =~= keys@);
            assert forall|k: ChannelId|
                channels@.to_set().contains(k) <==> self@.subscriptions(receiver.identity()).contains(
                    k,
                ) by {
                if self@.is_subscribed(k, receiver.identity()) {
                    assert(self@.topics.dom().contains(k));
                    assert(keys@.to_set().contains(k));
                }
            }
            assert(channels@.to_set() =~= self@.subscriptions(receiver.identity()));
        }
        channels
    }

    /// Opens a queue of `channel_size` messages, subscribes its sending half
    /// to the topic, tells the creation waiters of the topic, and returns the
    /// receiving half.
    pub fn subscribe(&mut self, id: &ChannelId, channel_size: usize) -> (receiver: MessageReceiver<M>)
        requires
            old(self).wf(),
            faithful_clone::<ChannelId>(),
            old(self)@.issued < usize::MAX,
            0 < channel_size <= MAX_CHANNEL_SIZE,
        ensures
            final(self).wf(),
            receiver.identity() == old(self)@.next_identity(),
            final(self)@ == old(self)@.issue().subscribe(*id, receiver.identity()),
            final(self).notices() == old(self).notices().push(old(self)@.creation_notice(*id)),
    {
        let (sender, receiver) = open(channel_size, self.get_new_id());
        self.insert_sender(sender, id);
        receiver
    }

    /// Appends `sender` to the subscribers of the topic, whose entry is
    /// created if there is none, and tells the creation waiters of the topic.
    /// Whether those notifications arrive is not reported.
    fn insert_sender(&mut self, sender: MessageSender<M>, id: &ChannelId)
        requires
            old(self).wf(),
            faithful_clone::<ChannelId>(),
            sender.identity().hub_discriminator == old(self)@.discriminator,
            sender.identity().channel_counter < old(self)@.issued,
        ensures
            final(self).wf(),
            final(self)@ == old(self)@.subscribe(*id, sender.identity()),
            final(self).notices() == old(self).notices().push(old(self)@.creation_notice(*id)),
    {
        proof {
            self@.lemma_subscribe_wf(*id, sender.identity());
        }
        enlist(&mut self.senders, id, sender);
        let _ = self.notify_creation(id);
    }

    /// Opens a queue under the identity `channel_id`, registers its sending
    /// half in `map` as a waiter of the topic, and returns the receiving half.
    pub fn get_waiter<T>(
        channel_id: SmartChannelId,
        id: &ChannelId,
        map: &mut HashMap<ChannelId, Vec<MessageSender<T>>>,
    ) -> (waiter: MessageReceiver<T>)
        requires
            obeys_key_model::<ChannelId>(),
            faithful_clone::<ChannelId>(),
        ensures
            waiter.identity() == channel_id,
            registry_of(final(map)@) == enlisted(registry_of(old(map)@), *id, channel_id),
    {
        let (sender, receiver) = open(NOTIFIER_CHANNEL_SIZE, channel_id);
        enlist(map, id, sender);
        receiver
    }

    /// Returns a receiver that gets a unit value each time somebody
    /// subscribes to the topic.
    pub fn get_creation_waiter(&mut self, id: &ChannelId) -> (waiter: CreationWaiter)
        requires
            old(self).wf(),
            faithful_clone::<ChannelId>(),
            old(self)@.issued < usize::MAX,
        ensures
            final(self).wf(),
            waiter.identity() == old(self)@.next_identity(),
            final(self)@ == old(self)@.issue().await_creation(*id, waiter.identity()),
            final(self).notices() == old(self).notices(),
    {
        let channel_id = self.get_new_id();
        proof {
            self@.lemma_await_creation_wf(*id, channel_id);
        }
        Self::get_waiter(channel_id, id, &mut self.creation_senders)
    }

    /// Returns a receiver that gets the departed sender each time a
    /// subscriber leaves the topic.
    pub fn get_destruction_waiter(&mut self, id: &ChannelId) -> (waiter: DestructionWaiter<M>)
        requires
            old(self).wf(),
            faithful_clone::<ChannelId>(),
            old(self)@.issued < usize::MAX,
        ensures
            final(self).wf(),
            waiter.identity() == old(self)@.next_identity(),
            final(self)@ == old(self)@.issue().await_destruction(*id, waiter.identity()),
            final(self).notices() == old(self).notices(),
    {
        let channel_id = self.get_new_id();
        proof {
            self@.lemma_await_destruction_wf(*id, channel_id);
        }
        Self::get_waiter(channel_id, id, &mut self.destruction_senders)
    }

    /// Takes out of the topic the subscribers at the positions flagged in
    /// `closed`, and returns the new state of the topic. A topic without an
    /// entry is left alone.
    pub fn sweep_channel(&mut self, channel: &ChannelId, closed: &[bool]) -> (state: ChannelState)
        requires
            old(self).wf(),
            faithful_clone::<ChannelId>(),
            old(self)@.topics.contains_key(*channel) ==> closed@.len() == old(self)@.topics[*channel].len(),
        ensures
            final(self).wf(),
            state == final(self)@.state(*channel),
            final(self)@ == (if old(self)@.topics.contains_key(*channel) {
                old(self)@.clean(*channel, closed@)
            } else {
                old(self)@
            }),
            final(self).notices() == old(self).notices(),
    {
        match self.senders.remove(channel) {
            Some(senders) => {
                proof {
                    old(self)@.lemma_clean_wf(*channel, closed@);
                }
                let kept = sweep(senders, closed);
                let state = if kept.len() == 0 {
                    ChannelState::Over
                } else {
                    ChannelState::Running
                };
                self.senders.insert(copy_key(channel), kept);
                assert(self@ =~= old(self)@.clean(*channel, closed@));
                state
            },
            None => {
                assert(self@ =~= old(self)@);
                ChannelState::Uninitialised
            },
        }
    }

    /// Takes out of the topic the subscribers whose queue is closed, and
    /// returns the new state of the topic: `Over` if nobody is left, else
    /// `Running`, or `Uninitialised` if the topic has no entry.
    pub fn clean_channel(&mut self, channel: &ChannelId) -> (state: ChannelState)
        requires
            old(self).wf(),
            faithful_clone::<ChannelId>(),
        ensures
            final(self).wf(),
            state == final(self)@.state(*channel),
            old(self)@.topics.contains_key(*channel) ==> exists|closed: Seq<bool>|
                closed.len() == old(self)@.topics[*channel].len() && final(self)@ == old(self)@.clean(
                    *channel,
                    closed,
                ),
            !old(self)@.topics.contains_key(*channel) ==> final(self)@ == old(self)@,
            final(self).notices() == old(self).notices(),
    {
        let closed = match self.senders.get(channel) {
            Some(senders) => probe(senders),
            None => Vec::new(),
        };
        self.sweep_channel(channel, closed.as_slice())
    }

    /// Cleans every topic, and returns the new state of each.
    pub fn clean_all(&mut self) -> (states: HashMap<ChannelId, ChannelState>)
        requires
            old(self).wf(),
            faithful_clone::<ChannelId>(),
        ensures
            final(self).wf(),
            final(self)@ == (HubView { topics: final(self)@.topics, ..old(self)@ }),
            final(self).notices() == old(self).notices(),
            final(self)@.topics.dom() == old(self)@.topics.dom(),
            states@.dom() == old(self)@.topics.dom(),
            forall|k: ChannelId| #[trigger]
                old(self)@.topics.contains_key(k) ==> {
                    &&& swept(old(self)@.topics[k], final(self)@.topics[k])
                    &&& states@[k] == final(self)@.state(k)
                },
    {
        let ghost start = self@;
        let ghost told = self.notices();
        let keys = self.get_channels();
        let mut states: HashMap<ChannelId, ChannelState> = HashMap::new();
        let mut i: usize = 0;
        while i < keys.len()
            invariant
                i <= keys@.len(),
                self.wf(),
                faithful_clone::<ChannelId>(),
                start.walks(keys@),
                self.notices() == told,
                self@ == (HubView { topics: self@.topics, ..start }),
                self@.topics.dom() == start.topics.dom(),
                states@.dom() =~= keys@.take(i as int).to_set(),
                forall|k: ChannelId|
                    keys@.take(i as int).contains(k) ==> {
                        &&& swept(start.topics[k], #[trigger] self@.topics[k])
                        &&& states@[k] == self@.state(k)
                    },
                forall|k: ChannelId|
                    start.topics.contains_key(k) && !keys@.take(i as int).contains(k)
                        ==> #[trigger] self@.topics[k] == start.topics[k],
            decreases keys@.len() - i,
        {
            let ghost before = self@;
            let ghost seen = keys@.take(i as int);
            let ghost key = keys@[i as int];
            proof {
                assert(keys@.take(i + 1) =~= seen.push(key));
                assert(keys@.to_set().contains(key));
                if seen.contains(key) {
                    let j = choose|j: int| 0 <= j < seen.len() && seen[j] == key;
                    assert(keys@[j] == keys@[i as int]);
                }
                assert(before.topics[key] == start.topics[key]);
            }
            let state = self.clean_channel(&keys[i]);
            states.insert(copy_key(&keys[i]), state);
            proof {
                let closed = choose|closed: Seq<bool>|
                    closed.len() == before.topics[key].len() && self@ == before.clean(key, closed);
                assert(self@.topics.dom() =~= start.topics.dom());
                assert(swept(start.topics[key], self@.topics[key]));
                assert forall|k: ChannelId| keys@.take(i + 1).contains(k) implies {
                    &&& swept(start.topics[k], #[trigger] self@.topics[k])
                    &&& states@[k] == self@.state(k)
                } by {
                    vstd::seq_lib::lemma_seq_contains_after_push(seen, key, k);
                    if k != key {
                        assert(self@.topics[k] == before.topics[k]);
                    }
                }
                assert forall|k: ChannelId|
                    start.topics.contains_key(k) && !keys@.take(i + 1).contains(k) implies #[trigger]
                    self@.topics[k] == start.topics[k] by {
                    vstd::seq_lib::lemma_seq_contains_after_push(seen, key, k);
                    assert(self@.topics[k] == before.topics[k]);
                }
                assert(states@.dom() =~= keys@.take(i + 1).to_set()) by {
                    assert forall|k: ChannelId|
                        keys@.take(i + 1).to_set().contains(k) <==> seen.to_set().contains(k) || k
                            == key by {
                        vstd::seq_lib::lemma_seq_contains_after_push(seen, key, k);
                    }
                }
            }
            i += 1;
        }
        proof {
            assert(keys@.take(i as int) =~= keys@);
            assert forall|k: ChannelId| #[trigger] start.topics.contains_key(k) implies {
                &&& swept(start.topics[k], self@.topics[k])
                &&& states@[k] == self@.state(k)
            } by {
                assert(keys@.to_set().contains(k));
            }
        }
        states
    }
}

impl<M: Clone, ChannelId: Eq + Hash + Clone> NotifierHub<M, ChannelId> {
    /// Opens one queue of `channel_size` messages and subscribes a clone of
    /// its sending half to each topic of `ids` in turn. The one receiver that
    /// is returned is bound to all of them.
    pub fn subscribe_multiple(&mut self, ids: &[ChannelId], channel_size: usize) -> (receiver:
        MessageReceiver<M>)
        requires
            old(self).wf(),
            faithful_clone::<ChannelId>(),
            old(self)@.issued < usize::MAX,
            0 < channel_size <= MAX_CHANNEL_SIZE,
        ensures
            final(self).wf(),
            receiver.identity() == old(self)@.next_identity(),
            final(self)@ == old(self)@.issue().subscribe_multiple(ids@, receiver.identity()),
            final(self).notices() == old(self).notices() + old(self)@.subscribe_notices(ids@),
    {
        let ghost start = self@.issue();
        let ghost told = self.notices();
        let ghost to_notice = |k: ChannelId| start.creation_notice::<M>(k);
        let (sender, receiver) = open(channel_size, self.get_new_id());
        let mut i: usize = 0;
        while i < ids.len()
            invariant
                i <= ids@.len(),
                self.wf(),
                faithful_clone::<ChannelId>(),
                sender.identity() == receiver.identity(),
                sender.identity().hub_discriminator == self@.discriminator,
                sender.identity().channel_counter < self@.issued,
                self@ == start.subscribe_multiple(ids@.take(i as int), receiver.identity()),
                to_notice == |k: ChannelId| start.creation_notice::<M>(k),
                self.notices() =~= told + ids@.take(i as int).map_values(to_notice),
            decreases ids@.len() - i,
        {
            assert(ids@.take(i + 1).drop_last() =~= ids@.take(i as int));
            proof {
                start.law_subscribe_multiple(ids@.take(i as int), receiver.identity());
            }
            self.insert_sender(sender.clone(), &ids[i]);
            i += 1;
        }
        assert(ids@.take(i as int) =~= ids@);
        assert(ids@.map_values(to_notice) =~= old(self)@.subscribe_notices(ids@));
        receiver
    }

    /// Returns a copy of the sender that is bound to `receiver` in the topic,
    /// if `receiver` is subscribed to it.
    pub fn get_sender(&self, channel: &ChannelId, receiver: &MessageReceiver<M>) -> (sender: Option<
        MessageSender<M>,
    >)
        requires
            self.wf(),
        ensures
            sender is Some <==> self@.is_subscribed(*channel, receiver.identity()),
            sender matches Some(found) ==> found.identity() == receiver.identity(),
    {
        match self.senders.get(channel) {
            Some(senders) => match position_bound(senders, receiver) {
                Some(i) => {
                    assert(identities(senders@)[i as int] == receiver.identity());
                    Some(senders[i].clone())
                },
                None => None,
            },
            None => None,
        }
    }

    /// Returns, for each topic of `channel` that `receiver` is subscribed to,
    /// a copy of the sender that is bound to it there.
    pub fn get_senders(&self, receiver: &MessageReceiver<M>, channel: &[ChannelId]) -> (senders:
        HashMap<ChannelId, MessageSender<M>>)
        requires
            self.wf(),
            faithful_clone::<ChannelId>(),
        ensures
            senders@.dom() == channel@.to_set().intersect(self@.subscriptions(receiver.identity())),
            forall|k: ChannelId| #[trigger]
                senders@.contains_key(k) ==> senders@[k].identity() == receiver.identity(),
    {
        let mut senders: HashMap<ChannelId, MessageSender<M>> = HashMap::new();
        let mut i: usize = 0;
        while i < channel.len()
            invariant
                i <= channel@.len(),
                self.wf(),
                faithful_clone::<ChannelId>(),
                senders@.dom() =~= channel@.take(i as int).to_set().intersect(
                    self@.subscriptions(receiver.identity()),
                ),
                forall|k: ChannelId| #[trigger]
                    senders@.contains_key(k) ==> senders@[k].identity() == receiver.identity(),
            decreases channel@.len() - i,
        {
            proof {
                assert(channel@.take(i + 1) =~= channel@.take(i as int).push(channel@[i as int]));
                assert forall|k: ChannelId|
                    channel@.take(i + 1).to_set().contains(k) <==> channel@.take(
                        i as int,
                    ).to_set().contains(k) || k == channel@[i as int] by {
                    vstd::seq_lib::lemma_seq_contains_after_push(
                        channel@.take(i as int),
                        channel@[i as int],
                        k,
                    );
                }
            }
            if let Some(sender) = self.get_sender(&channel[i], receiver) {
                senders.insert(copy_key(&channel[i]), sender);
            }
            i += 1;
        }
        assert(channel@.take(i as int) =~= channel@);
        senders
    }
}

/// Appends `sender` to the list that `map` holds for the topic, which is
/// created if there is none.
fn enlist<T, K: Eq + Hash + Clone>(
    map: &mut HashMap<K, Vec<MessageSender<T>>>,
    id: &K,
    sender: MessageSender<T>,
)
    requires
        obeys_key_model::<K>(),
        faithful_clone::<K>(),
    ensures
        registry_of(final(map)@) == enlisted(registry_of(old(map)@), *id, sender.identity()),
{
    let mut list = match map.remove(id) {
        Some(list) => list,
        None => Vec::new(),
    };
    assert(identities(list@) =~= listed(registry_of(old(map)@), *id));
    list.push(sender);
    assert(identities(list@) =~= listed(registry_of(old(map)@), *id).push(sender.identity()));
    map.insert(copy_key(id), list);
    assert(registry_of(map@) =~= enlisted(registry_of(old(map)@), *id, sender.identity()));
}

/// `order` names every key of `map` once, and `targets` lists the identities
/// of the lists of `map` in that order.
spec fn covers<T, K>(
    map: Map<K, Vec<MessageSender<T>>>,
    order: Seq<K>,
    targets: Seq<SmartChannelId>,
) -> bool {
    &&& order.no_duplicates()
    &&& order.to_set() == map.dom()
    &&& targets == order.map_values(|k: K| listed(registry_of(map), k)).flatten()
}

/// Copies of all the senders of `map`, list after list, in the order in which
/// the map hands its keys out.
fn gather<T: Clone, K: Eq + Hash + Clone>(map: &HashMap<K, Vec<MessageSender<T>>>) -> (all: Vec<
    MessageSender<T>,
>)
    requires
        obeys_key_model::<K>(),
        faithful_clone::<K>(),
    ensures
        exists|order: Seq<K>| covers(map@, order, identities(all@)),
{
    let keys = keys_of(map);
    let ghost lists = |k: K| listed(registry_of(map@), k);
    let mut all: Vec<MessageSender<T>> = Vec::new();
    let mut i: usize = 0;
    assert(keys@.take(0).map_values(lists) =~= Seq::empty());
    while i < keys.len()
        invariant
            i <= keys@.len(),
            obeys_key_model::<K>(),
            keys@.to_set() == map@.dom(),
            lists == |k: K| listed(registry_of(map@), k),
            identities(all@) =~= keys@.take(i as int).map_values(lists).flatten(),
        decreases keys@.len() - i,
    {
        let ghost done = identities(all@);
        assert(keys@.to_set().contains(keys@[i as int]));
        match map.get(&keys[i]) {
            Some(list) => {
                let mut j: usize = 0;
                while j < list.len()
                    invariant
                        j <= list@.len(),
                        identities(all@) =~= done + identities(list@.take(j as int)),
                    decreases list@.len() - j,
                {
                    assert(identities(list@.take(j + 1)) =~= identities(list@.take(j as int)).push(
                        list@[j as int].identity(),
                    ));
                    let ghost gathered = all@;
                    let copy = list[j].clone();
                    all.push(copy);
                    assert(identities(all@) =~= identities(gathered).push(copy.identity()));
                    j += 1;
                }
                assert(list@.take(j as int) =~= list@);
            },
            None => {},
        }
        proof {
            let seen = keys@.take(i as int).map_values(lists);
            assert(keys@.take(i + 1).map_values(lists) =~= seen.push(lists(keys@[i as int])));
            seen.lemma_flatten_push(lists(keys@[i as int]));
        }
        i += 1;
    }
    assert(keys@.take(i as int) =~= keys@);
    assert(covers(map@, keys@, identities(all@)));
    all
}

/// Asks each sender of `list` whether its queue is closed.
fn probe<M>(list: &Vec<MessageSender<M>>) -> (closed: Vec<bool>)
    ensures
        closed@.len() == list@.len(),
{
    let mut closed: Vec<bool> = Vec::new();
    let mut i: usize = 0;
    while i < list.len()
        invariant
            i <= list@.len(),
            closed@.len() == i,
        decreases list@.len() - i,
    {
        closed.push(list[i].is_closed());
        i += 1;
    }
    closed
}

/// What is left of `list` without the senders at the positions flagged in
/// `closed`.
fn sweep<M>(list: Vec<MessageSender<M>>, closed: &[bool]) -> (kept: Vec<MessageSender<M>>)
    requires
        closed@.len() == list@.len(),
    ensures
        identities(kept@) == keep_open(identities(list@), closed@),
{
    let ghost all = list@;
    let mut kept: Vec<MessageSender<M>> = Vec::new();
    let mut i: usize = 0;
    assert(identities(all.take(0)) =~= Seq::empty());
    for sender in it: list
        invariant
            it.seq() == all,
            i == it.index(),
            closed@.len() == all.len(),
            identities(kept@) == keep_open(identities(all.take(i as int)), closed@.take(i as int)),
    {
        proof {
            let seen = identities(all.take(i as int));
            assert(identities(all.take(i + 1)) =~= seen.push(sender.identity()));
            assert(identities(all.take(i + 1)).drop_last() =~= seen);
            assert(closed@.take(i + 1).drop_last() =~= closed@.take(i as int));
        }
        if !closed[i] {
            kept.push(sender);
        }
        i += 1;
    }
    assert(all.take(all.len() as int) =~= all);
    assert(closed@.take(closed@.len() as int) =~= closed@);
    kept
}

/// A copy of a topic key.
fn copy_key<K: Clone>(key: &K) -> (copy: K)
    requires
        faithful_clone::<K>(),
    ensures
        copy == *key,
{
    let copy = key.clone();
    assert(cloned(*key, copy));
    copy
}

/// The keys of `map`, each once, in the order in which the map hands them out.
fn keys_of<K: Eq + Hash + Clone, V>(map: &HashMap<K, V>) -> (keys: Vec<K>)
    requires
        obeys_key_model::<K>(),
        faithful_clone::<K>(),
    ensures
        keys@.no_duplicates(),
        keys@.to_set() == map@.dom(),
{
    let mut keys: Vec<K> = Vec::new();
    for key in it: map.keys()
        invariant
            faithful_clone::<K>(),
            keys@.len() == it.index(),
            forall|i: int| 0 <= i < keys@.len() ==> keys@[i] == *it.seq()[i],
    {
        keys.push(copy_key(key));
    }
    assert(keys@ =~= map.keys().remaining().unref());
    keys
}

/// Parts `list` into the senders that are not bound to `receiver` and those
/// that are, each part in the order of `list`.
fn split_bound<M>(list: Vec<MessageSender<M>>, receiver: &MessageReceiver<M>) -> (parts: (
    Vec<MessageSender<M>>,
    Vec<MessageSender<M>>,
))
    ensures
        identities(parts.0@) == identities(list@).filter(other_than(receiver.identity())),
        forall|i: int| 0 <= i < parts.1@.len() ==> (#[trigger] parts.1@[i]).identity() == receiver.identity(),
        parts.1@.len() > 0 <==> identities(list@).contains(receiver.identity()),
{
    let ghost all = list@;
    let ghost wanted = other_than(receiver.identity());
    let mut kept: Vec<MessageSender<M>> = Vec::new();
    let mut bound: Vec<MessageSender<M>> = Vec::new();
    assert(identities(all.take(0)) =~= Seq::empty());
    for sender in it: list
        invariant
            it.seq() == all,
            wanted == other_than(receiver.identity()),
            identities(kept@) == identities(all.take(it.index() as int)).filter(wanted),
            forall|i: int| 0 <= i < bound@.len() ==> (#[trigger] bound@[i]).identity() == receiver.identity(),
            bound@.len() > 0 <==> identities(all.take(it.index() as int)).contains(receiver.identity()),
    {
        proof {
            let seen = identities(all.take(it.index() as int));
            assert(identities(all.take(it.index() + 1)) =~= seen.push(sender.identity()));
            seen.lemma_filter_push(sender.identity(), wanted);
            vstd::seq_lib::lemma_seq_contains_after_push(seen, sender.identity(), receiver.identity());
        }
        if sender.is_bound_to(receiver) {
            bound.push(sender);
        } else {
            kept.push(sender);
        }
    }
    assert(all.take(all.len() as int) =~= all);
    (kept, bound)
}

/// The position of the first sender of `list` that is bound to `receiver`.
fn position_bound<M>(list: &Vec<MessageSender<M>>, receiver: &MessageReceiver<M>) -> (position:
    Option<usize>)
    ensures
        match position {
            Some(i) => {
                &&& i < list@.len()
                &&& list@[i as int].identity() == receiver.identity()
                &&& !identities(list@.take(i as int)).contains(receiver.identity())
            },
            None => !identities(list@).contains(receiver.identity()),
        },
{
    let mut i: usize = 0;
    while i < list.len()
        invariant
            i <= list@.len(),
            !identities(list@.take(i as int)).contains(receiver.identity()),
        decreases list@.len() - i,
    {
        if list[i].is_bound_to(receiver) {
            return Some(i);
        }
        assert(identities(list@.take(i + 1)) =~= identities(list@.take(i as int)).push(
            list@[i as int].identity(),
        ));
        i += 1;
    }
    assert(list@.take(i as int) =~= list@);
    None
}

} // verus!
