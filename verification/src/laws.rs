use crate::hub_view::{
    keep_open, lemma_filter_absent, lemma_filter_drops, listed, other_than, HubView,
};
use crate::allocator::HubAllocator;
use crate::notifier::{ChannelState, SmartChannelId};
use vstd::prelude::*;

verus! {

/// The number of flags that are set in `closed`.
pub open spec fn flagged(closed: Seq<bool>) -> nat {
    closed.filter(|flag: bool| flag).len()
}

/// A sweep takes out as many entries as flags are set.
pub proof fn law_keep_open_len(list: Seq<SmartChannelId>, closed: Seq<bool>)
    requires
        list.len() == closed.len(),
    ensures
        keep_open(list, closed).len() + flagged(closed) == list.len(),
    decreases list.len(),
{
    reveal(Seq::filter);
    if list.len() > 0 {
        law_keep_open_len(list.drop_last(), closed.drop_last());
    }
}

/// A sweep under which no flag is set keeps the whole list.
pub proof fn law_keep_open_all(list: Seq<SmartChannelId>, closed: Seq<bool>)
    requires
        list.len() == closed.len(),
        forall|i: int| 0 <= i < closed.len() ==> !closed[i],
    ensures
        keep_open(list, closed) == list,
    decreases list.len(),
{
    if list.len() > 0 {
        law_keep_open_all(list.drop_last(), closed.drop_last());
        assert(list.drop_last().push(list.last()) =~= list);
    }
}

impl<K> HubView<K> {
    /// A topic without an entry is uninitialised and has no subscriber. This
    /// holds of every topic of a hub that holds nothing.
    pub proof fn law_unknown_topic(self, k: K, discriminator: usize)
        ensures
            !self.topics.contains_key(k) ==> {
                &&& self.state(k) == ChannelState::Uninitialised
                &&& self.number_subscriber(k) == 0
                &&& forall|id: SmartChannelId| !self.is_subscribed(k, id)
            },
            Self::empty(discriminator).state(k) == ChannelState::Uninitialised,
            Self::empty(discriminator).number_subscriber(k) == 0,
    {
    }

    /// Only a subscription to a topic gives it an entry: whatever else
    /// happens, to it or to another topic, a topic without an entry stays
    /// without one.
    pub proof fn law_only_subscription_initialises(
        self,
        k: K,
        other: K,
        others: Seq<K>,
        id: SmartChannelId,
        closed: Seq<bool>,
    )
        requires
            !self.topics.contains_key(k),
        ensures
            !self.issue().topics.contains_key(k),
            other != k ==> !self.subscribe(other, id).topics.contains_key(k),
            !others.contains(k) ==> !self.subscribe_multiple(others, id).topics.contains_key(k),
            !self.unsubscribe(other, id).topics.contains_key(k),
            !self.unsubscribe_multiple(others, id).topics.contains_key(k),
            !self.unsubscribe_all(id).topics.contains_key(k),
            self.topics.contains_key(other) ==> !self.clean(other, closed).topics.contains_key(k),
            !self.shutdown(other).topics.contains_key(k),
            !self.shutdown_all().topics.contains_key(k),
            !self.await_creation(other, id).topics.contains_key(k),
            !self.await_destruction(other, id).topics.contains_key(k),
    {
        self.law_subscribe_multiple(others, id);
        self.lemma_unsubscribe_multiple(others, id);
    }

    /// Subscribing to the topics of `ks` in turn gives each of them an entry
    /// that lists `id`, and touches no other topic. A topic that `ks` names
    /// once gets `id` appended once.
    pub proof fn law_subscribe_multiple(self, ks: Seq<K>, id: SmartChannelId)
        ensures
            self.subscribe_multiple(ks, id) == (HubView {
                topics: self.subscribe_multiple(ks, id).topics,
                ..self
            }),
            self.subscribe_multiple(ks, id).topics.dom() == self.topics.dom().union(ks.to_set()),
            forall|k: K| ks.contains(k) ==> #[trigger] self.subscribe_multiple(ks, id).is_subscribed(k, id),
            forall|k: K|
                !ks.contains(k) ==> #[trigger] listed(self.subscribe_multiple(ks, id).topics, k)
                    == listed(self.topics, k),
            ks.no_duplicates() ==> forall|k: K|
                ks.contains(k) ==> #[trigger] self.subscribe_multiple(ks, id).topics[k] == listed(
                    self.topics,
                    k,
                ).push(id),
        decreases ks.len(),
    {
        let after = self.subscribe_multiple(ks, id);
        if ks.len() == 0 {
            assert(after.topics.dom() =~= self.topics.dom().union(ks.to_set()));
        } else {
            let shorter = ks.drop_last();
            let last = ks.last();
            let before = self.subscribe_multiple(shorter, id);
            self.law_subscribe_multiple(shorter, id);
            assert(shorter.push(last) =~= ks);
            assert forall|k: K| ks.contains(k) <==> shorter.contains(k) || k == last by {
                vstd::seq_lib::lemma_seq_contains_after_push(shorter, last, k);
            }
            assert(after.topics.dom() =~= self.topics.dom().union(ks.to_set()));
            assert forall|k: K| ks.contains(k) implies #[trigger] after.is_subscribed(k, id) by {
                if k == last {
                    assert(after.topics[k].last() == id);
                } else {
                    assert(before.is_subscribed(k, id));
                }
            }
            assert forall|k: K| !ks.contains(k) implies #[trigger] listed(after.topics, k) == listed(
                self.topics,
                k,
            ) by {
                assert(listed(before.topics, k) == listed(self.topics, k));
            }
            if ks.no_duplicates() {
                assert(shorter.no_duplicates());
                assert(!shorter.contains(last)) by {
                    if shorter.contains(last) {
                        let j = choose|j: int| 0 <= j < shorter.len() && shorter[j] == last;
                        assert(ks[j] == ks[ks.len() - 1]);
                    }
                }
                assert forall|k: K| ks.contains(k) implies #[trigger] after.topics[k] == listed(
                    self.topics,
                    k,
                ).push(id) by {
                    if k == last {
                        assert(listed(before.topics, k) == listed(self.topics, k));
                    } else {
                        assert(before.topics[k] == listed(self.topics, k).push(id));
                    }
                }
            }
        }
    }

    /// A first subscription to a topic makes it run, and the departure of
    /// that subscriber leaves it over: from uninitialised a topic passes
    /// through running before it is over.
    pub proof fn law_subscribe_then_unsubscribe(self, k: K, id: SmartChannelId)
        requires
            self.state(k) == ChannelState::Uninitialised,
        ensures
            self.issue().state(k) == ChannelState::Uninitialised,
            self.issue().subscribe(k, id).state(k) == ChannelState::Running,
            self.issue().subscribe(k, id).unsubscribe(k, id).state(k) == ChannelState::Over,
    {
        let running = self.issue().subscribe(k, id);
        assert(running.topics[k] =~= seq![id]);
        assert(running.topics[k][0] == id);
        lemma_filter_drops(running.topics[k], id);
        let kept = running.topics[k].filter(other_than(id));
        if kept.len() > 0 {
            assert(kept.contains(kept[0]));
            running.topics[k].lemma_filter_contains_rev(other_than(id), kept[0]);
        }
    }

    /// The departure of a subscriber that has just come, and was not on the
    /// topic before, leaves the subscribers of the topic as they were.
    pub proof fn law_unsubscribe_undoes_subscribe(self, k: K, id: SmartChannelId)
        requires
            !self.is_subscribed(k, id),
        ensures
            self.subscribe(k, id).is_subscribed(k, id),
            self.subscribe(k, id).unsubscribe(k, id).topics == self.topics.insert(
                k,
                listed(self.topics, k),
            ),
    {
        let present = listed(self.topics, k);
        let running = self.subscribe(k, id);
        assert(running.topics[k].last() == id);
        present.lemma_filter_push(id, other_than(id));
        lemma_filter_absent(present, id);
    }

    /// The identity that a well-formed hub issues next is held nowhere in it:
    /// it is subscribed to no topic and waits for none.
    pub proof fn law_next_identity_is_fresh(self, k: K)
        requires
            self.wf(),
        ensures
            !self.is_subscribed(k, self.next_identity()),
            !listed(self.creation_waiters, k).contains(self.next_identity()),
            !listed(self.destruction_waiters, k).contains(self.next_identity()),
    {
        let id = self.next_identity();
        if self.is_subscribed(k, id) {
            let i = choose|i: int| 0 <= i < self.topics[k].len() && self.topics[k][i] == id;
            assert(self.topics[k][i].channel_counter < self.issued);
        }
        if listed(self.creation_waiters, k).contains(id) {
            let i = choose|i: int|
                0 <= i < self.creation_waiters[k].len() && self.creation_waiters[k][i] == id;
            assert(self.creation_waiters[k][i].channel_counter < self.issued);
        }
        if listed(self.destruction_waiters, k).contains(id) {
            let i = choose|i: int|
                0 <= i < self.destruction_waiters[k].len() && self.destruction_waiters[k][i] == id;
            assert(self.destruction_waiters[k][i].channel_counter < self.issued);
        }
    }

    /// No hub issues an identity twice, and two hubs with different
    /// discriminators never issue the same identity.
    pub proof fn law_identities_differ<L>(self, other: HubView<L>, id: SmartChannelId)
        requires
            self.issued <= usize::MAX,
            other.issued <= usize::MAX,
        ensures
            self.issued != other.issued || self.discriminator != other.discriminator
                ==> self.next_identity() != other.next_identity(),
            self.issue().has_issued(self.next_identity()),
            !self.has_issued(self.next_identity()),
            self.has_issued(id) ==> self.issue().has_issued(id),
            self.discriminator != other.discriminator ==> !(self.has_issued(id) && other.has_issued(
                id,
            )),
    {
    }

    /// A well-formed hub holds no identity of a hub with another
    /// discriminator: a receiver of that hub is subscribed to none of its
    /// topics and waits for none.
    pub proof fn law_stranger_is_not_subscribed<L>(
        self,
        other: HubView<L>,
        k: K,
        id: SmartChannelId,
    )
        requires
            self.wf(),
            self.discriminator != other.discriminator,
            id.hub_discriminator == other.discriminator,
        ensures
            !self.is_subscribed(k, id),
            !listed(self.creation_waiters, k).contains(id),
            !listed(self.destruction_waiters, k).contains(id),
            self.unsubscribe(k, id) == self,
    {
        if self.is_subscribed(k, id) {
            let i = choose|i: int| 0 <= i < self.topics[k].len() && self.topics[k][i] == id;
            assert(self.topics[k][i].hub_discriminator == self.discriminator);
        }
        if listed(self.creation_waiters, k).contains(id) {
            let i = choose|i: int|
                0 <= i < self.creation_waiters[k].len() && self.creation_waiters[k][i] == id;
            assert(self.creation_waiters[k][i].hub_discriminator == self.discriminator);
        }
        if listed(self.destruction_waiters, k).contains(id) {
            let i = choose|i: int|
                0 <= i < self.destruction_waiters[k].len() && self.destruction_waiters[k][i] == id;
            assert(self.destruction_waiters[k][i].hub_discriminator == self.discriminator);
        }
    }

    /// Two hubs that one allocator built never issue the same identity, and
    /// neither holds an identity of the other: the allocator moves on by one
    /// at each hub, so the later hub has another discriminator.
    pub proof fn law_hubs_of_one_allocator_differ<L>(
        self,
        other: HubView<L>,
        first: nat,
        earlier: nat,
        later: nat,
        k: K,
        id: SmartChannelId,
    )
        requires
            earlier < later,
            HubAllocator::handed_out(first, later) <= usize::MAX,
            self.discriminator == HubAllocator::handed_out(first, earlier),
            other.discriminator == HubAllocator::handed_out(first, later),
        ensures
            HubAllocator::handed_out(first, earlier + 1) == HubAllocator::handed_out(first, earlier)
                + 1,
            self.discriminator != other.discriminator,
            !(self.has_issued(id) && other.has_issued(id)),
            self.issued <= usize::MAX && other.issued <= usize::MAX ==> self.next_identity()
                != other.next_identity(),
            self.wf() && other.has_issued(id) ==> !self.is_subscribed(k, id),
    {
        if self.wf() && other.has_issued(id) {
            self.law_stranger_is_not_subscribed(other, k, id);
        }
    }

    /// Taking `id` out of topics that are each named once leaves it in none of
    /// them, leaves every other topic as it was, and refuses exactly the named
    /// topics that `id` was not subscribed to.
    pub proof fn law_unsubscribe_multiple(self, ks: Seq<K>, id: SmartChannelId)
        requires
            ks.no_duplicates(),
        ensures
            self.unsubscribe_multiple(ks, id) == self.leave(ks.to_set(), id),
            forall|k: K| ks.contains(k) ==> !(#[trigger] self.unsubscribe_multiple(ks, id).is_subscribed(k, id)),
            forall|k: K, other: SmartChannelId|
                other != id ==> #[trigger] self.unsubscribe_multiple(ks, id).is_subscribed(k, other)
                    == self.is_subscribed(k, other),
            forall|k: K|
                !ks.contains(k) ==> #[trigger] self.unsubscribe_multiple(ks, id).is_subscribed(k, id)
                    == self.is_subscribed(k, id),
            self.refusals(ks, id) == ks.filter(|k: K| !self.is_subscribed(k, id)),
            self.refusals(ks, id).to_set() == ks.to_set().difference(self.subscriptions(id)),
            self.refusals(ks, id).len() == 0 <==> ks.to_set().subset_of(self.subscriptions(id)),
    {
        let after = self.unsubscribe_multiple(ks, id);
        self.lemma_unsubscribe_multiple(ks, id);
        assert forall|k: K| ks.contains(k) implies !(#[trigger] after.is_subscribed(k, id)) by {
            if self.topics.contains_key(k) {
                lemma_filter_drops(self.topics[k], id);
            }
        }
        assert forall|k: K, other: SmartChannelId| other != id implies #[trigger] after.is_subscribed(
            k,
            other,
        ) == self.is_subscribed(k, other) by {
            if self.topics.contains_key(k) && ks.contains(k) {
                let list = self.topics[k];
                let kept = list.filter(other_than(id));
                if list.contains(other) {
                    let i = choose|i: int| 0 <= i < list.len() && list[i] == other;
                    list.lemma_filter_contains(other_than(id), i);
                }
                if kept.contains(other) {
                    list.lemma_filter_contains_rev(other_than(id), other);
                }
            }
        }
        self.lemma_refusals(ks, id);
        let refused = self.refusals(ks, id);
        let unsubscribed = |k: K| !self.is_subscribed(k, id);
        assert forall|k: K| refused.to_set().contains(k) <==> ks.to_set().difference(
            self.subscriptions(id),
        ).contains(k) by {
            if refused.contains(k) {
                ks.lemma_filter_contains_rev(unsubscribed, k);
                let i = choose|i: int| 0 <= i < refused.len() && refused[i] == k;
                ks.lemma_filter_pred(unsubscribed, i);
            }
            if ks.contains(k) && !self.is_subscribed(k, id) {
                let i = choose|i: int| 0 <= i < ks.len() && ks[i] == k;
                ks.lemma_filter_contains(unsubscribed, i);
            }
        }
        assert(refused.to_set() =~= ks.to_set().difference(self.subscriptions(id)));
        if refused.len() == 0 {
            assert forall|k: K| ks.to_set().contains(k) implies self.subscriptions(id).contains(k) by {
                if !self.is_subscribed(k, id) {
                    assert(refused.to_set().contains(k));
                }
            }
        } else {
            assert(refused.to_set().contains(refused[0]));
        }
    }

    /// Among topics that are each named once, the refused ones are those that
    /// `id` was not subscribed to at the start, in the order of their names.
    pub proof fn lemma_refusals(self, ks: Seq<K>, id: SmartChannelId)
        requires
            ks.no_duplicates(),
        ensures
            self.refusals(ks, id) == ks.filter(|k: K| !self.is_subscribed(k, id)),
        decreases ks.len(),
    {
        let unsubscribed = |k: K| !self.is_subscribed(k, id);
        reveal(Seq::filter);
        if ks.len() > 0 {
            let shorter = ks.drop_last();
            let last = ks.last();
            self.lemma_refusals(shorter, id);
            self.lemma_unsubscribe_multiple(shorter, id);
            assert(!shorter.contains(last)) by {
                if shorter.contains(last) {
                    let j = choose|j: int| 0 <= j < shorter.len() && shorter[j] == last;
                    assert(ks[j] == ks[ks.len() - 1]);
                }
            }
            let before = self.unsubscribe_multiple(shorter, id);
            assert(before.is_subscribed(last, id) == self.is_subscribed(last, id));
        }
    }

    /// Among topics that are each named once, the destruction waiters hear of
    /// the departure of `id` from exactly those that `id` was subscribed to at
    /// the start, in the order of their names.
    pub proof fn law_unsubscribe_notices<M>(self, ks: Seq<K>, id: SmartChannelId)
        requires
            ks.no_duplicates(),
        ensures
            self.unsubscribe_notices::<M>(ks, id) == ks.filter(
                |k: K| self.is_subscribed(k, id),
            ).map_values(|k: K| self.destruction_notice::<M>(k, id)),
            self.unsubscribe_notices::<M>(ks, id).len() + self.refusals(ks, id).len() == ks.len(),
        decreases ks.len(),
    {
        let subscribed = |k: K| self.is_subscribed(k, id);
        let to_notice = |k: K| self.destruction_notice::<M>(k, id);
        reveal(Seq::filter);
        if ks.len() == 0 {
            assert(self.unsubscribe_notices::<M>(ks, id) =~= ks.filter(subscribed).map_values(
                to_notice,
            ));
        } else {
            let shorter = ks.drop_last();
            let last = ks.last();
            self.law_unsubscribe_notices::<M>(shorter, id);
            self.lemma_unsubscribe_multiple(shorter, id);
            assert(!shorter.contains(last)) by {
                if shorter.contains(last) {
                    let j = choose|j: int| 0 <= j < shorter.len() && shorter[j] == last;
                    assert(ks[j] == ks[ks.len() - 1]);
                }
            }
            let before = self.unsubscribe_multiple(shorter, id);
            assert(before.is_subscribed(last, id) == self.is_subscribed(last, id));
            assert(self.unsubscribe_notices::<M>(ks, id) =~= ks.filter(subscribed).map_values(
                to_notice,
            ));
        }
    }

    /// A topic that was shut down is uninitialised, so that shutting it down
    /// again finds no entry; the other topics keep their state.
    pub proof fn law_shutdown(self, k: K, other: K)
        ensures
            !self.shutdown(k).topics.contains_key(k),
            self.shutdown(k).state(k) == ChannelState::Uninitialised,
            self.shutdown(k).shutdown(k) == self.shutdown(k),
            other != k ==> self.shutdown(k).state(other) == self.state(other),
            self.shutdown_all().state(other) == ChannelState::Uninitialised,
    {
        assert(self.shutdown(k).shutdown(k).topics =~= self.shutdown(k).topics);
    }

    /// Cleaning a topic leaves it as many subscribers fewer as flags are
    /// set, and leaves it running as long as one remains.
    pub proof fn law_clean(self, k: K, closed: Seq<bool>)
        requires
            self.topics.contains_key(k),
            closed.len() == self.topics[k].len(),
        ensures
            self.clean(k, closed).number_subscriber(k) + flagged(closed) == self.number_subscriber(k),
            self.clean(k, closed).state(k) == (if flagged(closed) < self.number_subscriber(k) {
                ChannelState::Running
            } else {
                ChannelState::Over
            }),
    {
        law_keep_open_len(self.topics[k], closed);
    }
}

} // verus!
