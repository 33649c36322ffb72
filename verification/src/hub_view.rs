use crate::notices::Notice;
use crate::notifier::{ChannelState, SmartChannelId};
use vstd::prelude::*;

verus! {

/// The subscribers of each topic, by identity and in the order in which they
/// were added. A topic without an entry differs from one with an empty list.
pub type Registry<K> = Map<K, Seq<SmartChannelId>>;

/// The list that `registry` holds for `k`, empty where it holds none.
pub open spec fn listed<K>(registry: Registry<K>, k: K) -> Seq<SmartChannelId> {
    if registry.contains_key(k) {
        registry[k]
    } else {
        Seq::empty()
    }
}

/// `registry` after `id` was appended to the list of `k`, which is created if
/// it did not exist.
pub open spec fn enlisted<K>(registry: Registry<K>, k: K, id: SmartChannelId) -> Registry<K> {
    registry.insert(k, listed(registry, k).push(id))
}

/// The predicate that holds of every identity but `id`.
pub open spec fn other_than(id: SmartChannelId) -> spec_fn(SmartChannelId) -> bool {
    |other: SmartChannelId| other != id
}

/// What is left of `list` once the entries at the positions flagged in
/// `closed` are taken out. The two sequences must have the same length.
pub open spec fn keep_open(list: Seq<SmartChannelId>, closed: Seq<bool>) -> Seq<SmartChannelId>
    recommends
        list.len() == closed.len(),
    decreases list.len(),
{
    if list.len() == 0 || closed.len() != list.len() {
        Seq::empty()
    } else if closed.last() {
        keep_open(list.drop_last(), closed.drop_last())
    } else {
        keep_open(list.drop_last(), closed.drop_last()).push(list.last())
    }
}

/// `after` is `before` without some of its entries, the rest in their order.
pub open spec fn swept(before: Seq<SmartChannelId>, after: Seq<SmartChannelId>) -> bool {
    exists|closed: Seq<bool>| closed.len() == before.len() && after == keep_open(before, closed)
}

/// Every identity listed in `registry` carries `discriminator` and a counter
/// below `issued`.
pub open spec fn all_issued<K>(registry: Registry<K>, discriminator: usize, issued: nat) -> bool {
    forall|k: K, i: int|
        registry.contains_key(k) && 0 <= i < registry[k].len() ==> {
            &&& (#[trigger] registry[k][i]).hub_discriminator == discriminator
            &&& registry[k][i].channel_counter < issued
        }
}

/// The abstract state of a hub.
#[verifier::reject_recursive_types(K)]
#[verifier::ext_equal]
pub struct HubView<K> {
    /// The subscribers of each topic.
    pub topics: Registry<K>,
    /// The endpoints that are told of each new subscriber of a topic.
    pub creation_waiters: Registry<K>,
    /// The endpoints that are told of each subscriber that leaves a topic.
    pub destruction_waiters: Registry<K>,
    /// How many identities the hub has issued.
    pub issued: nat,
    /// The discriminator that the hub puts in every identity it issues.
    pub discriminator: usize,
}

impl<K> HubView<K> {
    /// A hub that holds nothing and has issued nothing.
    pub open spec fn empty(discriminator: usize) -> Self {
        HubView {
            topics: Map::empty(),
            creation_waiters: Map::empty(),
            destruction_waiters: Map::empty(),
            issued: 0,
            discriminator,
        }
    }

    /// Every identity that the hub holds was issued by it, and the count of
    /// issued identities fits the machine.
    pub open spec fn wf(self) -> bool {
        &&& self.issued <= usize::MAX
        &&& all_issued(self.topics, self.discriminator, self.issued)
        &&& all_issued(self.creation_waiters, self.discriminator, self.issued)
        &&& all_issued(self.destruction_waiters, self.discriminator, self.issued)
    }

    /// The identity that the hub issues next.
    pub open spec fn next_identity(self) -> SmartChannelId
        recommends
            self.issued <= usize::MAX,
    {
        SmartChannelId {
            channel_counter: self.issued as usize,
            hub_discriminator: self.discriminator,
        }
    }

    /// The hub after it issued one identity.
    pub open spec fn issue(self) -> Self {
        HubView { issued: self.issued + 1, ..self }
    }

    /// The state of topic `k`.
    pub open spec fn state(self, k: K) -> ChannelState {
        if !self.topics.contains_key(k) {
            ChannelState::Uninitialised
        } else if self.topics[k].len() > 0 {
            ChannelState::Running
        } else {
            ChannelState::Over
        }
    }

    /// The number of subscribers of topic `k`.
    pub open spec fn number_subscriber(self, k: K) -> nat {
        listed(self.topics, k).len()
    }

    /// Whether the endpoint `id` is subscribed to topic `k`.
    pub open spec fn is_subscribed(self, k: K, id: SmartChannelId) -> bool {
        listed(self.topics, k).contains(id)
    }

    /// The topics that the endpoint `id` is subscribed to.
    pub open spec fn subscriptions(self, id: SmartChannelId) -> Set<K> {
        Set::new(|k: K| self.is_subscribed(k, id))
    }

    /// The hub after `id` subscribed to topic `k`.
    pub open spec fn subscribe(self, k: K, id: SmartChannelId) -> Self {
        HubView { topics: enlisted(self.topics, k, id), ..self }
    }

    /// The hub after `id` subscribed to each topic of `ks` in turn.
    pub open spec fn subscribe_multiple(self, ks: Seq<K>, id: SmartChannelId) -> Self
        decreases ks.len(),
    {
        if ks.len() == 0 {
            self
        } else {
            self.subscribe_multiple(ks.drop_last(), id).subscribe(ks.last(), id)
        }
    }

    /// The hub after `id` left topic `k`. Nothing changes where `id` is not
    /// subscribed to `k`.
    pub open spec fn unsubscribe(self, k: K, id: SmartChannelId) -> Self {
        if self.is_subscribed(k, id) {
            HubView { topics: self.topics.insert(k, self.topics[k].filter(other_than(id))), ..self }
        } else {
            self
        }
    }

    /// The hub after `id` was taken out of each topic of `ks` in turn.
    pub open spec fn unsubscribe_multiple(self, ks: Seq<K>, id: SmartChannelId) -> Self
        decreases ks.len(),
    {
        if ks.len() == 0 {
            self
        } else {
            self.unsubscribe_multiple(ks.drop_last(), id).unsubscribe(ks.last(), id)
        }
    }

    /// The topics of `ks`, in their order, at whose turn `id` was not
    /// subscribed while it was taken out of each topic of `ks` in turn.
    pub open spec fn refusals(self, ks: Seq<K>, id: SmartChannelId) -> Seq<K>
        decreases ks.len(),
    {
        if ks.len() == 0 {
            Seq::empty()
        } else if self.unsubscribe_multiple(ks.drop_last(), id).is_subscribed(ks.last(), id) {
            self.refusals(ks.drop_last(), id)
        } else {
            self.refusals(ks.drop_last(), id).push(ks.last())
        }
    }

    /// The hub after `id` was taken out of every topic.
    pub open spec fn unsubscribe_all(self, id: SmartChannelId) -> Self {
        HubView {
            topics: self.topics.map_values(|list: Seq<SmartChannelId>| list.filter(other_than(id))),
            ..self
        }
    }

    /// The hub after `id` was taken out of the topics of `from`.
    pub open spec fn leave(self, from: Set<K>, id: SmartChannelId) -> Self {
        HubView {
            topics: Map::new(
                |k: K| self.topics.contains_key(k),
                |k: K|
                    if from.contains(k) {
                        self.topics[k].filter(other_than(id))
                    } else {
                        self.topics[k]
                    },
            ),
            ..self
        }
    }

    /// The hub after topic `k` lost the subscribers flagged in `closed`.
    pub open spec fn clean(self, k: K, closed: Seq<bool>) -> Self
        recommends
            self.topics.contains_key(k),
            closed.len() == self.topics[k].len(),
    {
        HubView { topics: self.topics.insert(k, keep_open(self.topics[k], closed)), ..self }
    }

    /// The hub after the entry of topic `k` was deleted.
    pub open spec fn shutdown(self, k: K) -> Self {
        HubView { topics: self.topics.remove(k), ..self }
    }

    /// The hub after the entries of all topics were deleted.
    pub open spec fn shutdown_all(self) -> Self {
        HubView { topics: Map::empty(), ..self }
    }

    /// The hub after `id` began to wait for the subscriptions to topic `k`.
    pub open spec fn await_creation(self, k: K, id: SmartChannelId) -> Self {
        HubView { creation_waiters: enlisted(self.creation_waiters, k, id), ..self }
    }

    /// The hub after `id` began to wait for the departures from topic `k`.
    pub open spec fn await_destruction(self, k: K, id: SmartChannelId) -> Self {
        HubView { destruction_waiters: enlisted(self.destruction_waiters, k, id), ..self }
    }

    /// Whether the hub has issued the identity `id`.
    pub open spec fn has_issued(self, id: SmartChannelId) -> bool {
        &&& id.hub_discriminator == self.discriminator
        &&& id.channel_counter < self.issued
    }

    /// The notice of a subscription to topic `k`.
    pub open spec fn creation_notice<M>(self, k: K) -> Notice<M, K> {
        Notice::Creation { topic: k, waiters: listed(self.creation_waiters, k) }
    }

    /// The notice of the departure of `id` from topic `k`.
    pub open spec fn destruction_notice<M>(self, k: K, id: SmartChannelId) -> Notice<M, K> {
        Notice::Destruction { topic: k, departed: id, waiters: listed(self.destruction_waiters, k) }
    }

    /// The notice of the close value `close` going to the subscribers of
    /// topic `k`.
    pub open spec fn closing_notice<M>(self, k: K, close: M) -> Notice<M, K> {
        Notice::Closing { topic: k, subscribers: listed(self.topics, k), close }
    }

    /// The notices of a subscription to each topic of `ks` in turn.
    pub open spec fn subscribe_notices<M>(self, ks: Seq<K>) -> Seq<Notice<M, K>> {
        ks.map_values(|k: K| self.creation_notice::<M>(k))
    }

    /// The notices of taking `id` out of each topic of `ks` in turn: one for
    /// each topic at whose turn `id` was subscribed to it.
    pub open spec fn unsubscribe_notices<M>(self, ks: Seq<K>, id: SmartChannelId) -> Seq<
        Notice<M, K>,
    >
        decreases ks.len(),
    {
        if ks.len() == 0 {
            Seq::empty()
        } else if self.unsubscribe_multiple(ks.drop_last(), id).is_subscribed(ks.last(), id) {
            self.unsubscribe_notices::<M>(ks.drop_last(), id).push(
                self.destruction_notice(ks.last(), id),
            )
        } else {
            self.unsubscribe_notices::<M>(ks.drop_last(), id)
        }
    }

    /// The notices of the shutdown of topic `k` with the close value `close`:
    /// the departure of each of its subscribers, in their order, then the
    /// close value going to all of them.
    pub open spec fn shutdown_notices<M>(self, k: K, close: M) -> Seq<Notice<M, K>> {
        listed(self.topics, k).map_values(
            |id: SmartChannelId| self.destruction_notice::<M>(k, id),
        ).push(self.closing_notice(k, close))
    }

    /// The notices of the shutdown of the topics of `order`, topic after
    /// topic, each with the close value of `closes` at its position.
    pub open spec fn shutdown_all_notices<M>(self, order: Seq<K>, closes: Seq<M>) -> Seq<
        Notice<M, K>,
    >
        recommends
            order.len() == closes.len(),
    {
        Seq::new(order.len(), |i: int| self.shutdown_notices(order[i], closes[i])).flatten()
    }

    /// `order` names every topic of the hub exactly once.
    pub open spec fn walks(self, order: Seq<K>) -> bool {
        &&& order.no_duplicates()
        &&& order.to_set() == self.topics.dom()
    }

    /// The subscribers of the topics of `order`, topic after topic. A
    /// subscriber of two topics occurs twice.
    pub open spec fn fan_out(self, order: Seq<K>) -> Seq<SmartChannelId> {
        order.map_values(|k: K| listed(self.topics, k)).flatten()
    }
}

/// Every entry of `list` carries `discriminator` and a counter below `issued`.
pub open spec fn list_issued(list: Seq<SmartChannelId>, discriminator: usize, issued: nat) -> bool {
    forall|i: int|
        0 <= i < list.len() ==> {
            &&& (#[trigger] list[i]).hub_discriminator == discriminator
            &&& list[i].channel_counter < issued
        }
}

/// A registry of issued identities stays one when a list of issued identities
/// replaces the list of a topic.
pub proof fn lemma_insert_issued<K>(
    registry: Registry<K>,
    k: K,
    list: Seq<SmartChannelId>,
    discriminator: usize,
    issued: nat,
)
    requires
        all_issued(registry, discriminator, issued),
        list_issued(list, discriminator, issued),
    ensures
        all_issued(registry.insert(k, list), discriminator, issued),
{
    let after = registry.insert(k, list);
    assert forall|q: K, i: int| after.contains_key(q) && 0 <= i < after[q].len() implies {
        &&& (#[trigger] after[q][i]).hub_discriminator == discriminator
        &&& after[q][i].channel_counter < issued
    } by {
        if q == k {
            assert(after[q][i] == list[i]);
        } else {
            assert(after[q][i] == registry[q][i]);
        }
    }
}

/// The list of each topic of a registry of issued identities is issued.
pub proof fn lemma_listed_issued<K>(registry: Registry<K>, k: K, discriminator: usize, issued: nat)
    requires
        all_issued(registry, discriminator, issued),
    ensures
        list_issued(listed(registry, k), discriminator, issued),
{
    let list = listed(registry, k);
    assert forall|i: int| 0 <= i < list.len() implies {
        &&& (#[trigger] list[i]).hub_discriminator == discriminator
        &&& list[i].channel_counter < issued
    } by {
        assert(list[i] == registry[k][i]);
    }
}

/// Whatever a filter keeps of a list of issued identities is issued.
pub proof fn lemma_filter_issued(
    list: Seq<SmartChannelId>,
    wanted: spec_fn(SmartChannelId) -> bool,
    discriminator: usize,
    issued: nat,
)
    requires
        list_issued(list, discriminator, issued),
    ensures
        list_issued(list.filter(wanted), discriminator, issued),
{
    let kept = list.filter(wanted);
    assert forall|i: int| 0 <= i < kept.len() implies {
        &&& (#[trigger] kept[i]).hub_discriminator == discriminator
        &&& kept[i].channel_counter < issued
    } by {
        assert(kept.contains(kept[i]));
        list.lemma_filter_contains_rev(wanted, kept[i]);
        let j = choose|j: int| 0 <= j < list.len() && list[j] == kept[i];
        assert(list[j].channel_counter < issued);
    }
}

/// Every entry of what a sweep keeps was in the list, and the sweep keeps
/// no more than the list held.
pub proof fn lemma_keep_open_within(list: Seq<SmartChannelId>, closed: Seq<bool>)
    requires
        list.len() == closed.len(),
    ensures
        keep_open(list, closed).len() <= list.len(),
        forall|i: int|
            0 <= i < keep_open(list, closed).len() ==> list.contains(
                #[trigger] keep_open(list, closed)[i],
            ),
    decreases list.len(),
{
    if list.len() > 0 {
        let shorter = keep_open(list.drop_last(), closed.drop_last());
        lemma_keep_open_within(list.drop_last(), closed.drop_last());
        let kept = keep_open(list, closed);
        assert forall|i: int| 0 <= i < kept.len() implies list.contains(#[trigger] kept[i]) by {
            if i < shorter.len() {
                assert(kept[i] == shorter[i]);
                assert(list.drop_last().contains(shorter[i]));
                let j = choose|j: int| 0 <= j < list.drop_last().len() && list.drop_last()[j] == shorter[i];
                assert(list[j] == kept[i]);
            } else {
                assert(kept[i] == list.last());
                assert(list[list.len() - 1] == kept[i]);
            }
        }
    }
}

/// Whatever a sweep keeps of a list of issued identities is issued.
pub proof fn lemma_keep_open_issued(
    list: Seq<SmartChannelId>,
    closed: Seq<bool>,
    discriminator: usize,
    issued: nat,
)
    requires
        list.len() == closed.len(),
        list_issued(list, discriminator, issued),
    ensures
        list_issued(keep_open(list, closed), discriminator, issued),
{
    let kept = keep_open(list, closed);
    lemma_keep_open_within(list, closed);
    assert forall|i: int| 0 <= i < kept.len() implies {
        &&& (#[trigger] kept[i]).hub_discriminator == discriminator
        &&& kept[i].channel_counter < issued
    } by {
        assert(list.contains(kept[i]));
        let j = choose|j: int| 0 <= j < list.len() && list[j] == kept[i];
        assert(list[j].channel_counter < issued);
    }
}

impl<K> HubView<K> {
    /// Subscribing an issued identity keeps the hub well-formed.
    pub proof fn lemma_subscribe_wf(self, k: K, id: SmartChannelId)
        requires
            self.wf(),
            id.hub_discriminator == self.discriminator,
            id.channel_counter < self.issued,
        ensures
            self.subscribe(k, id).wf(),
    {
        lemma_listed_issued(self.topics, k, self.discriminator, self.issued);
        lemma_insert_issued(
            self.topics,
            k,
            listed(self.topics, k).push(id),
            self.discriminator,
            self.issued,
        );
    }

    /// Registering an issued identity as a creation waiter keeps the hub
    /// well-formed.
    pub proof fn lemma_await_creation_wf(self, k: K, id: SmartChannelId)
        requires
            self.wf(),
            id.hub_discriminator == self.discriminator,
            id.channel_counter < self.issued,
        ensures
            self.await_creation(k, id).wf(),
    {
        lemma_listed_issued(self.creation_waiters, k, self.discriminator, self.issued);
        lemma_insert_issued(
            self.creation_waiters,
            k,
            listed(self.creation_waiters, k).push(id),
            self.discriminator,
            self.issued,
        );
    }

    /// Registering an issued identity as a destruction waiter keeps the hub
    /// well-formed.
    pub proof fn lemma_await_destruction_wf(self, k: K, id: SmartChannelId)
        requires
            self.wf(),
            id.hub_discriminator == self.discriminator,
            id.channel_counter < self.issued,
        ensures
            self.await_destruction(k, id).wf(),
    {
        lemma_listed_issued(self.destruction_waiters, k, self.discriminator, self.issued);
        lemma_insert_issued(
            self.destruction_waiters,
            k,
            listed(self.destruction_waiters, k).push(id),
            self.discriminator,
            self.issued,
        );
    }

    /// Unsubscribing keeps the hub well-formed.
    pub proof fn lemma_unsubscribe_wf(self, k: K, id: SmartChannelId)
        requires
            self.wf(),
        ensures
            self.unsubscribe(k, id).wf(),
    {
        if self.is_subscribed(k, id) {
            lemma_listed_issued(self.topics, k, self.discriminator, self.issued);
            lemma_filter_issued(self.topics[k], other_than(id), self.discriminator, self.issued);
            lemma_insert_issued(
                self.topics,
                k,
                self.topics[k].filter(other_than(id)),
                self.discriminator,
                self.issued,
            );
        }
    }

    /// Cleaning a topic keeps the hub well-formed.
    pub proof fn lemma_clean_wf(self, k: K, closed: Seq<bool>)
        requires
            self.wf(),
            self.topics.contains_key(k),
            closed.len() == self.topics[k].len(),
        ensures
            self.clean(k, closed).wf(),
    {
        lemma_listed_issued(self.topics, k, self.discriminator, self.issued);
        lemma_keep_open_issued(self.topics[k], closed, self.discriminator, self.issued);
        lemma_insert_issued(
            self.topics,
            k,
            keep_open(self.topics[k], closed),
            self.discriminator,
            self.issued,
        );
    }

    /// Shutting a topic down keeps the hub well-formed.
    pub proof fn lemma_shutdown_wf(self, k: K)
        requires
            self.wf(),
        ensures
            self.shutdown(k).wf(),
    {
        let after = self.topics.remove(k);
        assert forall|q: K, i: int| after.contains_key(q) && 0 <= i < after[q].len() implies {
            &&& (#[trigger] after[q][i]).hub_discriminator == self.discriminator
            &&& after[q][i].channel_counter < self.issued
        } by {
            assert(after[q][i] == self.topics[q][i]);
        }
    }
}

/// A filter that drops `id` leaves a list without `id` as it is.
pub proof fn lemma_filter_absent(list: Seq<SmartChannelId>, id: SmartChannelId)
    requires
        !list.contains(id),
    ensures
        list.filter(other_than(id)) == list,
    decreases list.len(),
{
    reveal(Seq::filter);
    if list.len() > 0 {
        assert(list[list.len() - 1] != id);
        assert forall|i: int| 0 <= i < list.drop_last().len() implies list.drop_last()[i] != id by {
            assert(list[i] != id);
        }
        lemma_filter_absent(list.drop_last(), id);
        assert(list.drop_last().push(list.last()) =~= list);
    }
}

/// What a filter that drops `id` keeps does not hold `id`.
pub proof fn lemma_filter_drops(list: Seq<SmartChannelId>, id: SmartChannelId)
    ensures
        !list.filter(other_than(id)).contains(id),
{
    let kept = list.filter(other_than(id));
    if kept.contains(id) {
        let i = choose|i: int| 0 <= i < kept.len() && kept[i] == id;
        list.lemma_filter_pred(other_than(id), i);
    }
}

impl<K> HubView<K> {
    /// Taking `id` out of the topics of `ks` in turn takes it out of each of
    /// them and touches nothing else, whatever the order and however often a
    /// topic is named.
    pub proof fn lemma_unsubscribe_multiple(self, ks: Seq<K>, id: SmartChannelId)
        ensures
            self.unsubscribe_multiple(ks, id) == self.leave(ks.to_set(), id),
        decreases ks.len(),
    {
        let after = self.unsubscribe_multiple(ks, id);
        if ks.len() == 0 {
            assert(after =~= self.leave(ks.to_set(), id));
        } else {
            let before = self.unsubscribe_multiple(ks.drop_last(), id);
            let last = ks.last();
            self.lemma_unsubscribe_multiple(ks.drop_last(), id);
            assert(ks.drop_last().push(last) =~= ks);
            assert forall|k: K| ks.contains(k) <==> ks.drop_last().contains(k) || k == last by {
                vstd::seq_lib::lemma_seq_contains_after_push(ks.drop_last(), last, k);
            }
            assert forall|k: K| #[trigger]
                self.topics.contains_key(k) implies after.topics.contains_key(k) && after.topics[k]
                == self.leave(ks.to_set(), id).topics[k] by {
                lemma_filter_drops(self.topics[k], id);
                if !self.topics[k].contains(id) {
                    lemma_filter_absent(self.topics[k], id);
                }
            }
            assert(after.topics =~= self.leave(ks.to_set(), id).topics);
        }
    }
}

impl<K> HubView<K> {
    /// Taking `id` out of every topic that it is subscribed to, each named
    /// once, takes it out of every topic.
    pub proof fn lemma_unsubscribe_subscriptions(self, ks: Seq<K>, id: SmartChannelId)
        requires
            ks.to_set() == self.subscriptions(id),
        ensures
            self.unsubscribe_multiple(ks, id) == self.unsubscribe_all(id),
    {
        self.lemma_unsubscribe_multiple(ks, id);
        let one_by_one = self.leave(ks.to_set(), id);
        let at_once = self.unsubscribe_all(id);
        assert forall|k: K| #[trigger] self.topics.contains_key(k) implies one_by_one.topics[k]
            == at_once.topics[k] by {
            if !ks.to_set().contains(k) {
                assert(!self.is_subscribed(k, id));
                lemma_filter_absent(self.topics[k], id);
            }
        }
        assert(one_by_one.topics =~= at_once.topics);
    }
}

} // verus!
