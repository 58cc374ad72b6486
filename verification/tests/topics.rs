//! Topic subscriptions, their merge and their addresses; and the string helpers.
use peppylib::error::Error;
use peppylib::message::Message;
use peppylib::pairing::PeerInfo;
use peppylib::payload::Payload;
use peppylib::producer::ProducerRef;
use peppylib::sorted_map::SortedMap;
use peppylib::text::{decimal_text, hex16_text, text_eq, text_order, TextOrder};
use peppylib::topics::{
    rotation_order, Addressee, BoundSetSubscription, BoundSource, MergeOutcome, MergeStep,
    PairingRecipient, TopicMessenger,
};

fn merge(names: &[&str]) -> BoundSetSubscription<usize> {
    BoundSetSubscription::new(
        names
            .iter()
            .enumerate()
            .map(|(n, name)| BoundSource {
                producer: ProducerRef::new("core", name),
                subscription: n,
            })
            .collect(),
    )
}

fn message() -> Message {
    Message::new(
        "core".to_string(),
        "a".to_string(),
        "_".to_string(),
        Payload::from_vec(vec![1]),
    )
}

#[test]
fn every_poll_starts_one_source_further() {
    assert_eq!(rotation_order(3, 0), [0, 1, 2]);
    assert_eq!(rotation_order(3, 1), [1, 2, 0]);
    assert_eq!(rotation_order(3, 5), [2, 0, 1]);
    let mut merge = merge(&["a", "b"]);
    assert!(matches!(merge.next_step(), MergeStep::Poll { start: 0 }));
    assert!(matches!(merge.next_step(), MergeStep::Poll { start: 1 }));
    assert!(matches!(merge.next_step(), MergeStep::Poll { start: 2 }));
}

#[test]
fn a_merge_tags_messages_and_drops_closed_sources() {
    let mut merge = merge(&["a", "b"]);
    match merge.on_polled(Some((1, Some(message()))), false) {
        MergeOutcome::Yield(producer, received) => {
            assert_eq!(producer.instance_id, "b");
            assert_eq!(received.payload_bytes(), &[1]);
        }
        _ => panic!("a message was received"),
    }
    match merge.on_polled(Some((0, None)), false) {
        MergeOutcome::Continue(gone) => assert_eq!(gone.instance_id, "a"),
        _ => panic!("another source remains"),
    }
    assert_eq!(merge.len(), 1);
    assert_eq!(*merge.subscription(0), 1);
    match merge.on_polled(Some((0, None)), false) {
        MergeOutcome::Ended(gone) => assert_eq!(gone.instance_id, "b"),
        _ => panic!("no source remains"),
    }
    assert!(matches!(merge.next_step(), MergeStep::AwaitShutdown));
}

#[test]
fn bound_set_subscription_empty_set_pends_until_shutdown_and_drains_before_none() {
    let core = "shared_core";
    let front = "front_camera";

    // Empty set: pending until shutdown, then the end.
    let mut empty: BoundSetSubscription<usize> = BoundSetSubscription::new(Vec::new());
    assert!(matches!(empty.next_step(), MergeStep::AwaitShutdown));
    assert!(
        matches!(empty.on_polled(None, false), MergeOutcome::Pending),
        "an empty bound set must stay pending, not yield or close"
    );
    assert!(
        matches!(empty.on_polled(None, true), MergeOutcome::Stopped),
        "shutdown must surface as end-of-stream"
    );

    // Non-empty set with a queued message: the message drains before the
    // already-fired shutdown is honoured.
    let mut subscription = BoundSetSubscription::new(vec![BoundSource {
        producer: ProducerRef::new(core, front),
        subscription: 0usize,
    }]);
    let queued = Message::new(
        core.to_string(),
        front.to_string(),
        "_".to_string(),
        Payload::from_vec(b"queued-before-shutdown".to_vec()),
    );
    assert!(matches!(subscription.next_step(), MergeStep::Poll { start: 0 }));
    match subscription.on_polled(Some((0, Some(queued))), true) {
        MergeOutcome::Yield(producer, message) => {
            assert_eq!(producer.instance_id, front);
            assert_eq!(message.payload_bytes(), b"queued-before-shutdown");
        }
        _ => panic!("queued message must win over the fired token"),
    }
    assert!(matches!(subscription.next_step(), MergeStep::Poll { start: 1 }));
    assert!(
        matches!(subscription.on_polled(None, true), MergeOutcome::Stopped),
        "shutdown must surface as end-of-stream"
    );
}

#[test]
fn a_closed_source_ends_no_merge_that_has_another() {
    for shutdown in [false, true] {
        let mut merge = merge(&["a", "b"]);
        assert!(matches!(
            merge.on_polled(Some((1, None)), shutdown),
            MergeOutcome::Continue(_)
        ));
        assert!(matches!(
            merge.on_polled(Some((0, Some(message()))), shutdown),
            MergeOutcome::Yield(_, _)
        ));
        assert!(matches!(
            merge.on_polled(Some((0, None)), shutdown),
            MergeOutcome::Ended(_)
        ));
    }
}

#[test]
fn addresses_pin_what_they_should() {
    let producer = ProducerRef::new("core_b", "camera");
    let pinned = TopicMessenger::pinned_receiver("core_a", "me", "frames", &producer);
    assert_eq!(pinned.from_core_node.as_deref(), Some("core_b"));
    assert_eq!(pinned.from_instance_id.as_deref(), Some("camera"));
    assert_eq!(pinned.from_link_id, None);
    let scoped = TopicMessenger::target_scoped_receiver("core_a", "me", Some("link"), "frames");
    assert_eq!(scoped.from_core_node, None);
    assert_eq!(scoped.from_link_id.as_deref(), Some("link"));
    let publisher =
        TopicMessenger::publisher_pinned_receiver("core_a", "me", &producer, "link", "frames");
    assert_eq!(publisher.from_link_id.as_deref(), Some("link"));
    let peer = TopicMessenger::peer_pinned_receiver(
        "core_a",
        "me",
        &producer,
        "theirs",
        PairingRecipient::Slot("mine".to_string()),
        "frames",
    );
    assert!(matches!(peer.recipient, PairingRecipient::Slot(ref slot) if slot == "mine"));
    assert_eq!(peer.topic, "frames");

    let anyone = TopicMessenger::sender("core_a", "me", None, "frames", Addressee::Everyone);
    assert_eq!(anyone.link_id, "_");
    let info = PeerInfo { producer, peer_link_id: "theirs".to_string() };
    let paired = TopicMessenger::pairing_sender("core_a", "me", "mine", "frames", &info);
    assert_eq!(paired.link_id, "mine");
    assert!(matches!(paired.addressee, Addressee::Peer(ref to) if *to == info));
    let sole = TopicMessenger::sole_peer_sender("core_a", "me", "mine", "frames");
    assert!(matches!(sole.addressee, Addressee::SolePeer));
}

#[test]
fn a_sorted_map_visits_its_keys_in_order() {
    let mut map: SortedMap<u8> = SortedMap::new();
    for (key, value) in [("viewer", 1), ("panel", 2), ("Panel", 3), ("é", 4)] {
        assert_eq!(map.insert(key.to_string(), value), None);
    }
    assert_eq!(map.insert("panel".to_string(), 5), Some(2));
    let keys: Vec<&str> = (0..map.len()).map(|n| map.key_at(n).as_str()).collect();
    assert_eq!(keys, ["Panel", "panel", "viewer", "é"]);
    assert_eq!(*map.value_at(1), 5);
    assert_eq!(map.get("viewer"), Some(&1));
    assert_eq!(map.get("none"), None);
    assert!(map.contains_key("é"));
    assert_eq!(map.remove("panel"), Some(5));
    assert_eq!(map.remove("panel"), None);
    assert_eq!(map.len(), 3);
}

#[test]
fn strings_compare_by_their_bytes() {
    assert_eq!(text_order("a", "b"), TextOrder::Before);
    assert_eq!(text_order("ab", "a"), TextOrder::After);
    assert_eq!(text_order("é", "é"), TextOrder::Same);
    assert!(text_eq("é", "é"));
    assert!(!text_eq("e", "é"));
    assert_eq!(decimal_text(0), "0");
    assert_eq!(decimal_text(u64::MAX), "18446744073709551615");
    assert_eq!(hex16_text(255), "00000000000000ff");
}

#[test]
fn errors_describe_themselves() {
    assert_eq!(
        Error::ServiceTimeout {
            instance_id: Some("arm".to_string()),
            service_name: "move".to_string()
        }
        .describe(),
        "service `move` did not answer in time on instance `arm`"
    );
    assert_eq!(
        Error::ServiceUnreachable { instance_id: None, service_name: "move".to_string() }.describe(),
        "service `move` is unreachable"
    );
    assert_eq!(Error::ServiceRequestStreamClosed.describe(), "the service's request stream is closed");
    assert_eq!(
        Error::UnknownPairingSlot { link_id: "arm".to_string() }.describe(),
        "pairing slot `arm` is not declared"
    );
    assert_eq!(
        Error::UnknownObservationSlot { link_id: "arm".to_string() }.describe(),
        "observer slot `arm` is not declared"
    );
}

#[test]
fn every_source_is_polled_first_around_the_wrap_of_the_counter() {
    let starts = [usize::MAX - 1, usize::MAX, 0, 1, 2];
    let firsts: Vec<usize> = starts.iter().map(|start| rotation_order(3, *start)[0]).collect();
    assert_eq!(firsts[2..], [0, 1, 2]);
    assert_eq!(firsts[..2], [(usize::MAX - 1) % 3, usize::MAX % 3]);
    assert_eq!(rotation_order(3, usize::MAX).len(), 3);
}
