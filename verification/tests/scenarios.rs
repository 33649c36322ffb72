use notifier_hub::allocator::HubAllocator;
use notifier_hub::closable_trait::ClosableMessage;
use notifier_hub::endpoint::open;
use notifier_hub::queue::MAX_CHANNEL_SIZE;
use notifier_hub::error::NotifierError;
use notifier_hub::notifier::{
    ChannelState, NotifierHub, SmartChannelId, NOTIFIER_CHANNEL_SIZE,
};
use notifier_hub::writing_handler::{Duration, WritingHandler};
use std::collections::HashMap;
use std::sync::Arc;
use tokio::runtime::{Builder, Runtime};

fn runtime() -> Runtime {
    Builder::new_current_thread().enable_all().build().unwrap()
}

/// Awaits every send of `handler`, for at most `duration` if one is given.
async fn wait<M: Send + 'static>(
    handler: WritingHandler<M>,
    duration: Option<Duration>,
) -> Result<(), NotifierError<M, &'static str>> {
    let (scheduled, refused) = handler.into_parts();
    let join_all = async move {
        let mut outcomes = Vec::new();
        for send in scheduled {
            outcomes.push(send.await);
        }
        outcomes
    };
    let observed = match duration {
        Some(limit) => tokio::time::timeout(limit, join_all).await.ok(),
        None => Some(join_all.await),
    };
    WritingHandler::settle(refused, observed, duration)
}

/// A text message whose close value is "bye".
#[derive(Clone, Debug, PartialEq)]
struct Note(String);

impl ClosableMessage for Note {
    fn get_close_message() -> Self {
        Note("bye".to_string())
    }
}

fn note(text: &str) -> Note {
    Note(text.to_string())
}

#[test]
fn topic_never_subscribed_to_is_uninitialised() {
    let mut hub: NotifierHub<String, &'static str> = NotifierHub::new(0);
    for topic in ["a", "b", ""] {
        assert_eq!(hub.channel_state(&topic), ChannelState::Uninitialised);
        assert_eq!(hub.channel_number_subscriber(&topic), 0);
    }
    let receiver = hub.subscribe(&"a", 1);
    hub.unsubscribe(&"a", &receiver).unwrap();
    let _waiter = hub.get_creation_waiter(&"b");
    let _ = hub.clone_send("x".to_string(), &"b");
    hub.clean_channel(&"b");
    assert_eq!(hub.unsubscribe_all(&receiver), Vec::<&str>::new());
    assert_eq!(hub.channel_state(&"b"), ChannelState::Uninitialised);
    assert_eq!(hub.channel_number_subscriber(&"b"), 0);
    assert_eq!(hub.channel_state(&""), ChannelState::Uninitialised);
    assert_eq!(hub.get_channels(), vec!["a"]);
}

#[test]
fn subscribe_then_unsubscribe_passes_through_running() {
    let mut hub: NotifierHub<String, &'static str> = NotifierHub::new(0);
    assert_eq!(hub.channel_state(&"t"), ChannelState::Uninitialised);
    let receiver = hub.subscribe(&"t", 5);
    assert_eq!(hub.channel_state(&"t"), ChannelState::Running);
    assert_eq!(hub.unsubscribe(&"t", &receiver).unwrap(), ChannelState::Over);
    assert_eq!(hub.channel_state(&"t"), ChannelState::Over);
    assert_eq!(hub.channel_number_subscriber(&"t"), 0);
}

#[test]
fn over_topic_runs_again_after_a_subscription() {
    let mut hub: NotifierHub<String, &'static str> = NotifierHub::new(0);
    let first = hub.subscribe(&"t", 5);
    hub.unsubscribe(&"t", &first).unwrap();
    assert_eq!(hub.channel_state(&"t"), ChannelState::Over);
    let second = hub.subscribe(&"t", 5);
    assert_eq!(hub.channel_state(&"t"), ChannelState::Running);
    assert!(hub.is_subscribed(&"t", &second));
    assert!(!hub.is_subscribed(&"t", &first));
}

#[test]
fn unsubscribe_keeps_the_other_subscribers() {
    let mut hub: NotifierHub<String, &'static str> = NotifierHub::new(0);
    let first = hub.subscribe(&"t", 5);
    let second = hub.subscribe(&"t", 5);
    let third = hub.subscribe(&"t", 5);
    assert_eq!(hub.unsubscribe(&"t", &second).unwrap(), ChannelState::Running);
    assert_eq!(hub.channel_number_subscriber(&"t"), 2);
    assert!(hub.is_subscribed(&"t", &first));
    assert!(!hub.is_subscribed(&"t", &second));
    assert!(hub.is_subscribed(&"t", &third));
}

#[test]
fn unsubscribe_from_unknown_or_foreign_topic_is_refused() {
    let mut hub: NotifierHub<String, &'static str> = NotifierHub::new(0);
    let receiver = hub.subscribe(&"mine", 5);
    let _other = hub.subscribe(&"theirs", 5);
    assert!(matches!(
        hub.unsubscribe(&"nowhere", &receiver),
        Err(NotifierError::NotSubscribed("nowhere"))
    ));
    assert!(matches!(
        hub.unsubscribe(&"theirs", &receiver),
        Err(NotifierError::NotSubscribed("theirs"))
    ));
    assert_eq!(hub.channel_state(&"nowhere"), ChannelState::Uninitialised);
    assert_eq!(hub.channel_number_subscriber(&"theirs"), 1);
    assert!(hub.is_subscribed(&"mine", &receiver));
}

#[test]
fn unsubscribe_multiple_on_a_strict_subset() {
    let mut hub: NotifierHub<String, &'static str> = NotifierHub::new(0);
    let receiver = hub.subscribe_multiple(&["c1", "c3"], 5);
    let other = hub.subscribe_multiple(&["c1", "c2"], 5);
    let kept = hub.subscribe(&"c5", 5);

    let result = hub.unsubscribe_multiple(&["c1", "c2", "c3", "c4"], &receiver);
    match result {
        Err(NotifierError::NotSubscribedMultiple(errors)) => {
            assert_eq!(errors.len(), 2);
            assert!(matches!(errors[0], NotifierError::NotSubscribed("c2")));
            assert!(matches!(errors[1], NotifierError::NotSubscribed("c4")));
        }
        _ => panic!("an aggregate of two refusals was expected"),
    }
    assert!(!hub.is_subscribed(&"c1", &receiver));
    assert!(!hub.is_subscribed(&"c3", &receiver));
    assert_eq!(hub.subscribed_list(&receiver), Vec::<&str>::new());
    assert!(hub.is_subscribed(&"c1", &other));
    assert!(hub.is_subscribed(&"c2", &other));
    assert!(hub.is_subscribed(&"c5", &kept));
    assert_eq!(hub.channel_state(&"c1"), ChannelState::Running);
    assert_eq!(hub.channel_state(&"c2"), ChannelState::Running);
    assert_eq!(hub.channel_state(&"c3"), ChannelState::Over);
    assert_eq!(hub.channel_state(&"c4"), ChannelState::Uninitialised);
}

#[test]
fn unsubscribe_multiple_leaves_topics_that_are_not_named() {
    let mut hub: NotifierHub<String, &'static str> = NotifierHub::new(0);
    let receiver = hub.subscribe_multiple(&["c1", "c2", "c3"], 5);
    assert!(hub.unsubscribe_multiple(&["c1", "c3"], &receiver).is_ok());
    let mut left = hub.subscribed_list(&receiver);
    left.sort();
    assert_eq!(left, vec!["c2"]);
}

#[test]
fn unsubscribe_multiple_refuses_the_second_mention_of_a_topic() {
    let mut hub: NotifierHub<String, &'static str> = NotifierHub::new(0);
    let receiver = hub.subscribe(&"c1", 5);
    match hub.unsubscribe_multiple(&["c1", "c1"], &receiver) {
        Err(NotifierError::NotSubscribedMultiple(errors)) => {
            assert_eq!(errors.len(), 1);
            assert!(matches!(errors[0], NotifierError::NotSubscribed("c1")));
        }
        _ => panic!("one refusal was expected"),
    }
    assert_eq!(hub.channel_state(&"c1"), ChannelState::Over);
}

#[test]
fn unsubscribe_multiple_of_nothing_succeeds() {
    let mut hub: NotifierHub<String, &'static str> = NotifierHub::new(0);
    let receiver = hub.subscribe(&"c1", 5);
    assert!(hub.unsubscribe_multiple(&[], &receiver).is_ok());
    assert!(hub.is_subscribed(&"c1", &receiver));
}

#[test]
fn unsubscribe_all_returns_each_topic_once() {
    let mut hub: NotifierHub<String, &'static str> = NotifierHub::new(0);
    let receiver = hub.subscribe_multiple(&["c1", "c2", "c1"], 5);
    let other = hub.subscribe(&"c1", 5);
    assert_eq!(hub.channel_number_subscriber(&"c1"), 3);
    let mut left = hub.unsubscribe_all(&receiver);
    left.sort();
    assert_eq!(left, vec!["c1", "c2"]);
    assert_eq!(hub.channel_number_subscriber(&"c1"), 1);
    assert!(hub.is_subscribed(&"c1", &other));
    assert_eq!(hub.channel_state(&"c2"), ChannelState::Over);
    assert_eq!(hub.unsubscribe_all(&receiver), Vec::<&str>::new());
}

#[test]
fn handler_length_follows_the_live_subscribers() {
    runtime().block_on(async {
        let mut hub: NotifierHub<String, &'static str> = NotifierHub::new(0);
        let first = hub.subscribe(&"t", 5);
        let _second = hub.subscribe(&"t", 5);
        let _third = hub.subscribe(&"t", 5);
        let handler = hub.clone_send("one".to_string(), &"t").unwrap();
        assert_eq!(handler.len(), 3);
        assert!(!handler.is_empty());
        wait(handler, None).await.unwrap();

        drop(first);
        assert_eq!(hub.clean_channel(&"t"), ChannelState::Running);
        assert_eq!(hub.channel_number_subscriber(&"t"), 2);
        let handler = hub.clone_send("two".to_string(), &"t").unwrap();
        assert_eq!(handler.len(), 2);
        wait(handler, None).await.unwrap();
    });
}

#[test]
fn shared_and_duplicating_broadcast_deliver_equal_values() {
    runtime().block_on(async {
        let mut plain: NotifierHub<String, &'static str> = NotifierHub::new(0);
        let mut shared: NotifierHub<Arc<String>, &'static str> = NotifierHub::new(0);
        let mut plain_receivers = Vec::new();
        let mut shared_receivers = Vec::new();
        for _ in 0..4 {
            plain_receivers.push(plain.subscribe(&"t", 5));
            shared_receivers.push(shared.subscribe(&"t", 5));
        }
        let payload = "a large payload".to_string();
        let by_clone = plain.clone_send(payload.clone(), &"t").unwrap();
        let by_arc = shared.arc_send(payload.clone(), &"t").unwrap();
        assert_eq!(by_clone.len(), 4);
        assert_eq!(by_arc.len(), 4);
        wait(by_clone, None).await.unwrap();
        wait(by_arc, None).await.unwrap();
        let mut handles = Vec::new();
        for (mut one, mut other) in plain_receivers.into_iter().zip(shared_receivers) {
            let cloned = one.receiver().recv().await.unwrap();
            let handle = other.receiver().recv().await.unwrap();
            assert_eq!(cloned, payload);
            assert_eq!(*handle, cloned);
            handles.push(handle);
        }
        // The shared broadcast wrapped the payload once.
        assert!(handles.iter().all(|handle| Arc::ptr_eq(handle, &handles[0])));
    });
}

#[test]
fn broadcast_reaches_a_subscriber_once_per_topic() {
    runtime().block_on(async {
        let mut hub: NotifierHub<String, &'static str> = NotifierHub::new(0);
        let mut both = hub.subscribe_multiple(&["c1", "c2"], 5);
        let mut one = hub.subscribe(&"c1", 5);
        let handler = hub.broadcast_clone("all".to_string());
        assert_eq!(handler.len(), 3);
        wait(handler, None).await.unwrap();
        assert_eq!(both.receiver().recv().await.unwrap(), "all");
        assert_eq!(both.receiver().recv().await.unwrap(), "all");
        assert!(both.receiver().try_recv().is_err());
        assert_eq!(one.receiver().recv().await.unwrap(), "all");
        assert!(one.receiver().try_recv().is_err());
    });
}

#[test]
fn broadcast_on_an_empty_hub_targets_nobody() {
    runtime().block_on(async {
        let hub: NotifierHub<String, &'static str> = NotifierHub::new(0);
        let handler = hub.broadcast_clone("nobody".to_string());
        assert_eq!(handler.len(), 0);
        assert!(wait(handler, None).await.is_ok());
        let shared: NotifierHub<Arc<String>, &'static str> = NotifierHub::new(0);
        assert_eq!(shared.broadcast_arc("nobody".to_string()).len(), 0);
    });
}

#[test]
fn send_to_an_over_topic_is_a_successful_no_op() {
    runtime().block_on(async {
        let mut hub: NotifierHub<String, &'static str> = NotifierHub::new(0);
        let receiver = hub.subscribe(&"t", 5);
        hub.unsubscribe(&"t", &receiver).unwrap();
        let handler = hub.clone_send("nobody".to_string(), &"t").unwrap();
        assert!(handler.is_empty());
        assert!(wait(handler, Some(Duration::from_millis(10))).await.is_ok());
    });
}

#[test]
fn shutdown_delivers_the_close_value_and_cannot_be_repeated() {
    runtime().block_on(async {
        let mut hub: NotifierHub<Note, &'static str> = NotifierHub::new(0);
        let mut first = hub.subscribe(&"t", 5);
        let mut second = hub.subscribe(&"t", 5);
        let mut elsewhere = hub.subscribe(&"u", 5);

        let handler = hub.shutdown_clone(&"t").unwrap();
        assert_eq!(handler.len(), 2);
        wait(handler, None).await.unwrap();
        assert_eq!(first.receiver().recv().await.unwrap(), note("bye"));
        assert_eq!(second.receiver().recv().await.unwrap(), note("bye"));
        // The hub holds no sender of the topic any more: the queues are closed.
        assert_eq!(first.receiver().recv().await, None);
        assert!(elsewhere.receiver().try_recv().is_err());

        assert_eq!(hub.channel_state(&"t"), ChannelState::Uninitialised);
        assert_eq!(hub.channel_number_subscriber(&"t"), 0);
        assert!(!hub.is_subscribed(&"t", &first));
        assert!(matches!(
            hub.shutdown_clone(&"t"),
            Err(NotifierError::ChannelNotExist("t"))
        ));
        assert_eq!(hub.channel_state(&"u"), ChannelState::Running);
    });
}

#[test]
fn shutdown_with_sends_the_given_value() {
    runtime().block_on(async {
        let mut hub: NotifierHub<String, &'static str> = NotifierHub::new(0);
        let mut receiver = hub.subscribe(&"t", 5);
        let handler = hub.shutdown_with(&"t", "stop".to_string()).unwrap();
        assert_eq!(handler.len(), 1);
        assert_eq!(receiver.receiver().recv().await.unwrap(), "stop");
        assert!(matches!(
            hub.shutdown_with(&"t", "stop".to_string()),
            Err(NotifierError::ChannelNotExist("t"))
        ));
    });
}

#[test]
fn shutdown_of_an_over_topic_deletes_its_entry() {
    let mut hub: NotifierHub<Note, &'static str> = NotifierHub::new(0);
    let receiver = hub.subscribe(&"t", 5);
    hub.unsubscribe(&"t", &receiver).unwrap();
    assert_eq!(hub.channel_state(&"t"), ChannelState::Over);
    let handler = hub.shutdown_clone(&"t").unwrap();
    assert_eq!(handler.len(), 0);
    assert_eq!(hub.channel_state(&"t"), ChannelState::Uninitialised);
    assert_eq!(hub.get_channels(), Vec::<&str>::new());
}

#[test]
fn shutdown_hands_every_sender_to_the_destruction_waiters() {
    runtime().block_on(async {
        let mut hub: NotifierHub<Note, &'static str> = NotifierHub::new(0);
        let mut waiter = hub.get_destruction_waiter(&"t");
        let mut first = hub.subscribe(&"t", 5);
        let mut second = hub.subscribe(&"t", 5);
        let handler = hub.shutdown_clone(&"t").unwrap();
        wait(handler, None).await.unwrap();

        let one = waiter.receiver().recv().await.unwrap();
        let other = waiter.receiver().recv().await.unwrap();
        assert!(one.is_bound_to(&first));
        assert!(other.is_bound_to(&second));
        assert_eq!(first.receiver().recv().await.unwrap(), note("bye"));
        // A departed sender still reaches its receiver.
        one.sender().send(note("last word")).await.unwrap();
        assert_eq!(first.receiver().recv().await.unwrap(), note("last word"));
        assert_eq!(second.receiver().recv().await.unwrap(), note("bye"));
        assert_eq!(hub.number_of_destruction_waiter(&"t"), 1);
    });
}

#[test]
fn destruction_waiters_hear_of_an_unsubscribe_multiple() {
    runtime().block_on(async {
        let mut hub: NotifierHub<String, &'static str> = NotifierHub::new(0);
        let mut waiter = hub.get_destruction_waiter(&"c2");
        let receiver = hub.subscribe_multiple(&["c1", "c2"], 5);
        hub.unsubscribe_multiple(&["c1", "c2"], &receiver).unwrap();
        let departed = waiter.receiver().recv().await.unwrap();
        assert_eq!(departed.id(), receiver.id());
        assert!(waiter.receiver().try_recv().is_err());
    });
}

#[test]
fn hello_scenario() {
    runtime().block_on(async {
        let mut hub: NotifierHub<Note, &'static str> = NotifierHub::new(0);
        let mut r1 = hub.subscribe(&"c1", 100);
        let mut r2 = hub.subscribe(&"c1", 100);

        let handler = hub.clone_send(note("hello"), &"c1").unwrap();
        assert!(wait(handler, None).await.is_ok());
        assert_eq!(r1.receiver().recv().await.unwrap(), note("hello"));
        assert_eq!(r2.receiver().recv().await.unwrap(), note("hello"));

        let state = hub.unsubscribe(&"c1", &r1).unwrap();
        let expected = if hub.channel_number_subscriber(&"c1") > 0 {
            ChannelState::Running
        } else {
            ChannelState::Over
        };
        assert_eq!(state, expected);
        assert_eq!(hub.channel_number_subscriber(&"c1"), 1);
        assert_eq!(state, ChannelState::Running);

        hub.shutdown_all_clone();
        assert_eq!(r2.receiver().recv().await.unwrap(), note("bye"));
        assert!(r1.receiver().try_recv().is_err());
        for topic in hub.get_channels() {
            assert_eq!(hub.channel_state(&topic), ChannelState::Uninitialised);
        }
        assert_eq!(hub.channel_state(&"c1"), ChannelState::Uninitialised);
        assert_eq!(hub.get_channels(), Vec::<&str>::new());
    });
}

#[test]
fn identities_count_up_under_the_discriminator_of_the_hub() {
    let mut hub: NotifierHub<String, &'static str> = NotifierHub::new(7);
    assert_eq!(hub.issued(), 0);
    assert_eq!(
        hub.get_new_id(),
        SmartChannelId { channel_counter: 0, hub_discriminator: 7 }
    );
    let receiver = hub.subscribe(&"t", 5);
    assert_eq!(
        receiver.id(),
        SmartChannelId { channel_counter: 1, hub_discriminator: 7 }
    );
    let waiter = hub.get_creation_waiter(&"t");
    assert_eq!(
        waiter.id(),
        SmartChannelId { channel_counter: 2, hub_discriminator: 7 }
    );
    let waiter = hub.get_destruction_waiter(&"t");
    assert_eq!(
        waiter.id(),
        SmartChannelId { channel_counter: 3, hub_discriminator: 7 }
    );
    let receiver = hub.subscribe_multiple(&["a", "b", "c"], 5);
    assert_eq!(
        receiver.id(),
        SmartChannelId { channel_counter: 4, hub_discriminator: 7 }
    );
    assert_eq!(hub.issued(), 5);
    let mut fresh: NotifierHub<String, &'static str> = NotifierHub::new(0);
    assert_eq!(fresh.issued(), 0);
    assert_eq!(
        fresh.get_new_id(),
        SmartChannelId { channel_counter: 0, hub_discriminator: 0 }
    );
}

#[test]
fn allocator_hands_each_hub_its_own_discriminator() {
    let mut hubs = HubAllocator::new();
    assert_eq!(hubs.next_discriminator(), 0);
    let mut one: NotifierHub<String, &'static str> = hubs.new_hub();
    assert_eq!(hubs.next_discriminator(), 1);
    let mut other: NotifierHub<u8, u32> = hubs.new_hub();
    let mut third: NotifierHub<String, &'static str> = hubs.new_hub();
    assert_eq!(hubs.next_discriminator(), 3);
    assert_eq!(
        one.get_new_id(),
        SmartChannelId { channel_counter: 0, hub_discriminator: 0 }
    );
    assert_eq!(
        other.get_new_id(),
        SmartChannelId { channel_counter: 0, hub_discriminator: 1 }
    );
    assert_eq!(
        third.get_new_id(),
        SmartChannelId { channel_counter: 0, hub_discriminator: 2 }
    );
    assert_eq!(
        one.get_new_id(),
        SmartChannelId { channel_counter: 1, hub_discriminator: 0 }
    );
    assert_eq!(one.channel_state(&"t"), ChannelState::Uninitialised);
    assert_eq!(one.get_channels(), Vec::<&str>::new());
}

#[test]
fn hubs_of_one_allocator_do_not_mix_receivers() {
    let mut hubs = HubAllocator::new();
    let mut one: NotifierHub<String, &'static str> = hubs.new_hub();
    let mut other: NotifierHub<String, &'static str> = hubs.new_hub();
    let mine = one.subscribe(&"t", 5);
    let theirs = other.subscribe(&"t", 5);
    assert_ne!(mine.id(), theirs.id());
    assert!(!other.is_subscribed(&"t", &mine));
    assert!(!one.is_subscribed(&"t", &theirs));
    assert_eq!(other.subscribed_list(&mine), Vec::<&str>::new());
    assert!(matches!(
        other.unsubscribe(&"t", &mine),
        Err(NotifierError::NotSubscribed("t"))
    ));
    assert_eq!(other.unsubscribe_all(&mine), Vec::<&str>::new());
    assert!(other.is_subscribed(&"t", &theirs));
    assert_eq!(other.channel_number_subscriber(&"t"), 1);
}

#[test]
fn hubs_with_different_discriminators_do_not_mix_receivers() {
    let mut one: NotifierHub<String, &'static str> = NotifierHub::new(1);
    let mut other: NotifierHub<String, &'static str> = NotifierHub::new(2);
    let mine = one.subscribe(&"t", 5);
    let theirs = other.subscribe(&"t", 5);
    assert_ne!(mine.id(), theirs.id());
    assert!(!other.is_subscribed(&"t", &mine));
    assert!(other.get_sender(&"t", &mine).is_none());
    assert!(matches!(
        other.unsubscribe(&"t", &mine),
        Err(NotifierError::NotSubscribed("t"))
    ));
    assert!(other.is_subscribed(&"t", &theirs));
}

#[test]
fn sweep_takes_out_the_flagged_subscribers() {
    let mut hub: NotifierHub<String, &'static str> = NotifierHub::new(0);
    let first = hub.subscribe(&"t", 5);
    let second = hub.subscribe(&"t", 5);
    let third = hub.subscribe(&"t", 5);
    assert_eq!(
        hub.sweep_channel(&"t", &[false, true, false]),
        ChannelState::Running
    );
    assert_eq!(hub.channel_number_subscriber(&"t"), 2);
    assert!(hub.is_subscribed(&"t", &first));
    assert!(!hub.is_subscribed(&"t", &second));
    assert!(hub.is_subscribed(&"t", &third));
    assert_eq!(hub.sweep_channel(&"t", &[false, false]), ChannelState::Running);
    assert_eq!(hub.channel_number_subscriber(&"t"), 2);
    assert_eq!(hub.sweep_channel(&"t", &[true, true]), ChannelState::Over);
    assert_eq!(hub.channel_state(&"t"), ChannelState::Over);
    assert_eq!(hub.sweep_channel(&"t", &[]), ChannelState::Over);
    assert_eq!(hub.sweep_channel(&"u", &[]), ChannelState::Uninitialised);
    assert_eq!(hub.channel_state(&"u"), ChannelState::Uninitialised);
}

#[test]
fn clean_keeps_the_open_queues_in_their_order() {
    runtime().block_on(async {
        let mut hub: NotifierHub<String, &'static str> = NotifierHub::new(0);
        let first = hub.subscribe(&"t", 5);
        let second = hub.subscribe(&"t", 5);
        let mut third = hub.subscribe(&"t", 5);
        let fourth = hub.subscribe(&"t", 5);
        drop(second);
        third.receiver().close();
        assert_eq!(hub.channel_number_subscriber(&"t"), 4);
        assert_eq!(hub.clean_channel(&"t"), ChannelState::Running);
        assert_eq!(hub.channel_number_subscriber(&"t"), 2);
        assert!(hub.is_subscribed(&"t", &first));
        assert!(!hub.is_subscribed(&"t", &third));
        assert!(hub.is_subscribed(&"t", &fourth));
        assert_eq!(hub.clean_channel(&"nowhere"), ChannelState::Uninitialised);
        assert_eq!(hub.channel_state(&"nowhere"), ChannelState::Uninitialised);
    });
}

#[test]
fn clean_all_reports_every_topic() {
    let mut hub: NotifierHub<String, &'static str> = NotifierHub::new(0);
    assert_eq!(hub.clean_all(), HashMap::new());
    let gone = hub.subscribe(&"a", 5);
    let _here = hub.subscribe(&"b", 5);
    let left = hub.subscribe(&"c", 5);
    hub.unsubscribe(&"c", &left).unwrap();
    drop(gone);
    let states = hub.clean_all();
    assert_eq!(states.len(), 3);
    assert_eq!(states[&"a"], ChannelState::Over);
    assert_eq!(states[&"b"], ChannelState::Running);
    assert_eq!(states[&"c"], ChannelState::Over);
    assert_eq!(hub.channel_state(&"a"), ChannelState::Over);
    assert_eq!(hub.get_channels().len(), 3);
}

#[test]
fn waiters_are_counted_per_topic() {
    let mut hub: NotifierHub<String, &'static str> = NotifierHub::new(0);
    let _a = hub.get_creation_waiter(&"t");
    let _b = hub.get_destruction_waiter(&"t");
    let _c = hub.get_destruction_waiter(&"t");
    let _d = hub.get_destruction_waiter(&"u");
    assert_eq!(hub.number_of_creation_waiter(&"t"), 1);
    assert_eq!(hub.number_of_destruction_waiter(&"t"), 2);
    assert_eq!(hub.number_of_creation_waiter(&"u"), 0);
    assert_eq!(hub.number_of_destruction_waiter(&"u"), 1);
    // A waiter gives its topic no entry.
    assert_eq!(hub.channel_state(&"t"), ChannelState::Uninitialised);
    assert_eq!(hub.get_channels(), Vec::<&str>::new());
}

#[test]
fn waiter_registration_on_a_map_of_ones_own() {
    let mut map = HashMap::new();
    let id = SmartChannelId { channel_counter: 3, hub_discriminator: 9 };
    assert_eq!(NotifierHub::<String, &'static str>::number_of_waiter::<u8>(&"t", &HashMap::new()), 0);
    let mut waiter = NotifierHub::<String, &'static str>::get_waiter::<u8>(id, &"t", &mut map);
    assert_eq!(waiter.id(), id);
    assert_eq!(waiter.receiver().max_capacity(), NOTIFIER_CHANNEL_SIZE);
    assert_eq!(NOTIFIER_CHANNEL_SIZE, 10);
    let _second = NotifierHub::<String, &'static str>::get_waiter::<u8>(id, &"t", &mut map);
    assert_eq!(map.len(), 1);
    assert_eq!(map[&"t"].len(), 2);
    assert!(map[&"t"][0].is_bound_to(&waiter));
    assert_eq!(NotifierHub::<String, &'static str>::number_of_waiter(&"t", &map), 2);
    assert_eq!(NotifierHub::<String, &'static str>::number_of_waiter(&"u", &map), 0);
}

#[test]
fn creation_waiters_hear_of_every_subscription() {
    runtime().block_on(async {
        let mut hub: NotifierHub<String, &'static str> = NotifierHub::new(0);
        let mut waiter = hub.get_creation_waiter(&"c1");
        let mut elsewhere = hub.get_creation_waiter(&"c3");
        let _one = hub.subscribe(&"c1", 5);
        let _two = hub.subscribe_multiple(&["c1", "c2"], 5);
        assert_eq!(waiter.receiver().recv().await, Some(()));
        assert_eq!(waiter.receiver().recv().await, Some(()));
        let handler = hub.notify_creation(&"c3");
        assert_eq!(handler.len(), 1);
        wait(handler, None).await.unwrap();
        assert_eq!(elsewhere.receiver().recv().await, Some(()));
        assert!(waiter.receiver().try_recv().is_err());
        assert!(elsewhere.receiver().try_recv().is_err());
        assert_eq!(hub.notify_creation(&"c2").len(), 0);
    });
}

#[test]
fn a_waiter_that_went_away_does_not_disturb_a_subscription() {
    runtime().block_on(async {
        let mut hub: NotifierHub<String, &'static str> = NotifierHub::new(0);
        let gone = hub.get_creation_waiter(&"t");
        let mut here = hub.get_creation_waiter(&"t");
        drop(gone);
        let receiver = hub.subscribe(&"t", 5);
        assert!(hub.is_subscribed(&"t", &receiver));
        assert_eq!(here.receiver().recv().await, Some(()));
        // Waiters are never pruned.
        assert_eq!(hub.number_of_creation_waiter(&"t"), 2);
    });
}

#[test]
fn subscription_to_no_topic_yields_a_closed_receiver() {
    runtime().block_on(async {
        let mut hub: NotifierHub<String, &'static str> = NotifierHub::new(0);
        let mut receiver = hub.subscribe_multiple(&[], 5);
        assert_eq!(hub.get_channels(), Vec::<&str>::new());
        assert_eq!(hub.subscribed_list(&receiver), Vec::<&str>::new());
        assert_eq!(receiver.receiver().recv().await, None);
        assert_eq!(hub.issued(), 1);
    });
}

#[test]
fn senders_found_for_a_receiver_are_bound_to_it() {
    runtime().block_on(async {
        let mut hub: NotifierHub<String, &'static str> = NotifierHub::new(0);
        let mut receiver = hub.subscribe_multiple(&["c1", "c2"], 5);
        let other = hub.subscribe(&"c1", 5);
        let sender = hub.get_sender(&"c1", &receiver).unwrap();
        assert_eq!(sender.id(), receiver.id());
        assert!(sender.is_bound_to(&receiver));
        assert!(receiver.is_bound_to(&sender));
        assert!(!sender.is_bound_to(&other));
        sender.sender().send("direct".to_string()).await.unwrap();
        assert_eq!(receiver.receiver().recv().await.unwrap(), "direct");

        let senders = hub.get_senders(&receiver, &["c2", "c9", "c2", "c1"]);
        assert_eq!(senders.len(), 2);
        assert!(senders.values().all(|found| found.is_bound_to(&receiver)));
        assert!(hub.get_senders(&other, &["c2"]).is_empty());
        assert!(hub.get_senders(&other, &[]).is_empty());
        let over = hub.get_sender(&"c1", &other).unwrap().into_sender();
        assert_eq!(*over.id(), other.id());
    });
}

#[test]
fn endpoints_are_bound_by_their_identity() {
    let id = SmartChannelId { channel_counter: 4, hub_discriminator: 2 };
    let (sender, receiver) = open::<u8>(1, id);
    assert_eq!(sender.id(), id);
    assert_eq!(receiver.id(), id);
    assert!(sender.is_bound_to(&receiver));
    let copy = sender.clone();
    assert!(copy.is_bound_to(&receiver));
    let (stranger, far) = open::<u8>(
        1,
        SmartChannelId { channel_counter: 4, hub_discriminator: 3 },
    );
    assert!(!stranger.is_bound_to(&receiver));
    assert!(!far.is_bound_to(&sender));
    assert_eq!(MAX_CHANNEL_SIZE, usize::MAX >> 3);
}
