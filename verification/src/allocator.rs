use crate::hub_view::HubView;
use crate::notices::Notice;
use crate::notifier::NotifierHub;
use std::hash::Hash;
use vstd::prelude::*;
use vstd::std_specs::hash::obeys_key_model;

verus! {

/// The source of the discriminators of hubs. Each hub that is built from one
/// allocator gets a discriminator that no other hub from that allocator has,
/// so that no two of them ever issue the same identity. A program keeps one
/// allocator for all its hubs.
pub struct HubAllocator {
    /// The discriminator of the next hub.
    next: usize,
}

impl View for HubAllocator {
    type V = nat;

    /// The discriminator of the next hub.
    closed spec fn view(&self) -> nat {
        self.next as nat
    }
}

impl HubAllocator {
    /// The discriminator that an allocator hands out at its `turn`-th hub
    /// after the one that gets `first`.
    pub open spec fn handed_out(first: nat, turn: nat) -> nat {
        first + turn
    }

    /// Returns an allocator that has built no hub.
    pub fn new() -> (allocator: Self)
        ensures
            allocator@ == 0,
    {
        HubAllocator { next: 0 }
    }

    /// Returns the discriminator of the next hub. Once it reaches
    /// `usize::MAX` the allocator can build no further hub.
    pub fn next_discriminator(&self) -> (next: usize)
        ensures
            next == self@,
    {
        self.next
    }

    /// Builds an empty hub with the next discriminator, and moves on by one.
    pub fn new_hub<M, ChannelId: Eq + Hash>(&mut self) -> (hub: NotifierHub<M, ChannelId>)
        requires
            obeys_key_model::<ChannelId>(),
            old(self)@ < usize::MAX,
        ensures
            hub.wf(),
            hub@ == HubView::<ChannelId>::empty(old(self)@ as usize),
            hub.notices() == Seq::<Notice<M, ChannelId>>::empty(),
            final(self)@ == Self::handed_out(old(self)@, 1),
    {
        let discriminator = self.next;
        self.next += 1;
        NotifierHub::new(discriminator)
    }
}

} // verus!
