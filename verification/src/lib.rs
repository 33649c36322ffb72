//! An in-process publish/subscribe hub.
//!
//! Callers create named topics ("channels"), attach any number of subscriber
//! endpoints to them and broadcast messages to every current subscriber of one
//! topic or of all topics. The hub also lets collaborators watch a topic gain
//! or lose subscribers, and offers a cooperative shutdown.
//!
//! The registry of topics and its state machine are verified against an
//! abstract model, [`hub_view::HubView`]: every operation of
//! [`notifier::NotifierHub`] states how it transforms that model. The queues
//! themselves come from `smart_channel` and `tokio`; what is assumed of them is
//! confined to the trusted declarations of [`queue`].
//!
//! Every hub is built with a discriminator, which it puts in the identity of
//! each queue it opens. Hubs that one [`allocator::HubAllocator`] builds never
//! issue the same identity; a program keeps one allocator for all its hubs.
//!
//! The hub is not internally synchronised: share it behind a lock, or let one
//! task own it.

/// The source of the discriminators of hubs.
pub mod allocator;

/// The trait through which a message type designates its close value.
pub mod closable_trait;

/// Identity-tagged endpoints of a bounded queue.
pub mod endpoint;

/// The error types of the hub and of a multicast.
pub mod error;

/// The abstract model of a hub, and the laws that follow from it.
pub mod hub_view;

/// What holds of every hub, proved of the model.
pub mod laws;

/// The record of the fan-outs that a hub starts of its own accord.
pub mod notices;

/// The hub itself: registry, subscriptions, broadcasts, waiters and shutdown.
pub mod notifier;

/// One send of a fan-out, started.
pub mod pending;

/// The queues of `smart_channel` and `tokio`, and what is assumed of them.
pub mod queue;

/// The tracker of one multicast's per-subscriber sends.
pub mod writing_handler;
