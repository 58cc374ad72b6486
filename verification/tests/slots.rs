//! Bound sets, observer slots and pairing slots.
use peppylib::bound_set::NonEmptyProducers;
use peppylib::cardinality::Cardinality;
use peppylib::error::Error;
use peppylib::filter::ConsumerFilter;
use peppylib::message::Message;
use peppylib::observation::{
    DeliveryOutcome, NonEmptyObservedSources, ObservationSlot, ObservationSlotSet,
    ObservationState, ObservedMemberState, ObservedSource,
};
use peppylib::pairing::{
    wait_paired_step, PairingWait, PeerInfo, PeerMember, PeerPublishers, PeerSetState, PeerSlot,
    PeerSlotSet, PublisherStep,
};
use peppylib::payload::Payload;
use peppylib::producer::{BoundProducers, ProducerRef};
use peppylib::slot_stream::{
    begin_convergence, finish_convergence, forward_message, on_forward_event, surface,
    FollowedSlot, ForwardEvent, ForwardOutcome, ForwardStep, Forwarder, ObservedFollow, PeerFollow,
};

fn producers() -> Vec<ProducerRef> {
    vec![
        ProducerRef::new("core-1234", "front_camera"),
        ProducerRef::new("core-1234", "rear_camera"),
    ]
}

#[test]
fn empty_slice_is_rejected_at_construction() {
    assert_eq!(NonEmptyProducers::new(&[]), None);
}

#[test]
fn first_iter_len_and_as_slice_preserve_declaration_order() {
    let producers = producers();
    let set = NonEmptyProducers::new(&producers).expect("two members are non-empty");

    assert_eq!(set.first(), &producers[0], "first() is the declared head");
    assert_eq!(set.len(), 2);
    assert_eq!(set.as_slice(), &producers[..]);
    assert_eq!(
        set.iter().collect::<Vec<_>>(),
        producers.iter().collect::<Vec<_>>(),
        "iteration follows application declaration order"
    );
}

#[test]
fn for_loops_work_by_value_and_by_reference() {
    let producers = producers();
    let set = NonEmptyProducers::new(&producers).expect("two members are non-empty");

    let mut seen = Vec::new();
    for member in &set {
        seen.push(member.instance_id.as_str());
    }
    // The set is `Copy`, so consuming it in a by-value loop leaves the
    // original binding usable.
    for member in set {
        seen.push(member.instance_id.as_str());
    }
    assert_eq!(seen, ["front_camera", "rear_camera", "front_camera", "rear_camera"]);
}

const CORE: &str = "core_a";

fn pref(instance_id: &str) -> ProducerRef {
    ProducerRef::new(CORE, instance_id)
}

fn filter(producers: Vec<ProducerRef>) -> ConsumerFilter {
    ConsumerFilter::new(BoundProducers::new(producers).expect("test filters are non-empty"))
}

#[test]
fn single_producer_filter_pins_that_producer() {
    let filter = filter(vec![pref("cam1")]);
    assert_eq!(filter.pinned_target(), Some(&pref("cam1")));
}

#[test]
fn multi_producer_filter_keeps_order_and_never_pins() {
    let filter = filter(vec![pref("cam1"), pref("cam2")]);
    assert_eq!(filter.producers(), &[pref("cam1"), pref("cam2")]);
    assert_eq!(filter.pinned_target(), None);
}

/// Producer identity is the full pair: two producers sharing an instance id on
/// different core nodes are distinct entries.
#[test]
fn same_instance_id_on_different_core_nodes_stays_multi() {
    let filter = filter(vec![pref("cam1"), ProducerRef::new("core_b", "cam1")]);
    assert_eq!(filter.pinned_target(), None);
    assert_eq!(filter.producers().len(), 2);
}

#[test]
fn a_bound_set_refuses_repetitions() {
    assert!(BoundProducers::new(Vec::new()).is_none());
    assert!(BoundProducers::new(vec![pref("a"), pref("a")]).is_none());
    match BoundProducers::try_from_list(vec![pref("a"), pref("b"), pref("a"), pref("b")]) {
        Err(Error::DuplicateBoundProducer { core_node, instance_id }) => {
            assert_eq!((core_node.as_str(), instance_id.as_str()), (CORE, "a"));
        }
        _ => panic!("a repetition must be refused"),
    }
    assert_eq!(BoundProducers::empty().len(), 0);
    assert_eq!(BoundProducers::try_from_list(Vec::new()).expect("empty").len(), 0);
}

fn sources() -> Vec<ObservedSource> {
    vec![
        ObservedSource {
            producer: ProducerRef::new("core-1234", "left_arm"),
            source_link_id: "joint_states".to_string(),
        },
        ObservedSource {
            producer: ProducerRef::new("core-1234", "right_arm"),
            source_link_id: "joint_states".to_string(),
        },
    ]
}

#[test]
fn an_empty_vec_is_rejected_at_construction() {
    assert_eq!(NonEmptyObservedSources::new(Vec::new()), None);
}

#[test]
fn first_iter_len_and_as_slice_preserve_plan_order() {
    let sources = sources();
    let set = NonEmptyObservedSources::new(sources.clone()).expect("two members are non-empty");

    assert_eq!(set.first(), &sources[0], "first() is the plan's head");
    assert_eq!(set.len(), 2);
    assert_eq!(set.as_slice(), &sources[..]);
    assert_eq!(
        set.iter().collect::<Vec<_>>(),
        sources.iter().collect::<Vec<_>>(),
        "iteration follows plan order"
    );
}

#[test]
fn for_loops_work_by_reference_and_by_value() {
    let set = NonEmptyObservedSources::new(sources()).expect("two members are non-empty");

    let mut seen = Vec::new();
    for member in &set {
        seen.push(member.producer.instance_id.clone());
    }
    // The set owns its members rather than borrowing them, so the by-value loop
    // consumes it and has to come last.
    for member in set {
        seen.push(member.producer.instance_id);
    }
    assert_eq!(seen, ["left_arm", "right_arm", "left_arm", "right_arm"]);
}

#[test]
fn into_vec_hands_the_members_on_in_plan_order() {
    let set = NonEmptyObservedSources::new(sources()).expect("two members are non-empty");

    assert_eq!(set.into_vec(), sources());
}

fn member(instance: &str, generation: u64) -> ObservedMemberState {
    ObservedMemberState {
        source: ObservedSource {
            producer: ProducerRef::new("core_a", instance),
            source_link_id: "commander".to_string(),
        },
        source_generation: generation,
        source_live: true,
    }
}

fn state(members: Vec<ObservedMemberState>) -> ObservationState {
    ObservationState { sequence: 1, members }
}

#[test]
fn a_zero_or_one_slot_reports_an_absent_source_as_none() {
    let mut held = ObservationState::unregistered();
    let slot = ObservationSlot::new("observed_arm", Cardinality::ZeroOrOne);
    assert_eq!(slot.source(&held), None, "a vacant slot observes nothing");

    assert_eq!(held.deliver(state(vec![member("arm_1", 1)])), DeliveryOutcome::Replaced);
    let src = slot.source(&held).expect("slot should be resolved");
    assert_eq!(src.producer, ProducerRef::new("core_a", "arm_1"));
    assert_eq!(src.source_link_id, "commander");
}

#[test]
fn a_one_slot_reads_its_member_without_an_option() {
    let slot = ObservationSlot::new("observed_arm", Cardinality::One);
    let held = state(vec![member("arm_1", 1)]);

    let src = slot.sole_source(&held);
    assert_eq!(src.producer, ProducerRef::new("core_a", "arm_1"));
    assert_eq!(src.source_link_id, "commander");
}

#[test]
#[should_panic(expected = "observer slot `observed_arm` is declared `one` but observes nothing")]
fn sole_source_panics_when_a_one_slot_observes_nothing() {
    let slot = ObservationSlot::new("observed_arm", Cardinality::One);
    if let Err(message) = slot.read_sole(&ObservationState::unregistered()) {
        panic!("{message}");
    }
}

#[test]
fn slot_set_reports_every_member_in_plan_order() {
    let set = ObservationSlotSet::new("observed_arms", Cardinality::ZeroOrMore);
    assert!(
        set.sources(&ObservationState::unregistered()).is_empty(),
        "a `zero_or_more` slot the plan left unobserved is empty, not absent"
    );

    let held = state(vec![member("arm_2", 1), member("arm_1", 1)]);
    assert_eq!(
        set.sources(&held).iter().map(|s| s.producer.instance_id.clone()).collect::<Vec<_>>(),
        ["arm_2", "arm_1"]
    );

    // The set is live: a replan that drops a member shrinks it.
    assert_eq!(set.sources(&state(vec![member("arm_2", 1)])).len(), 1);
}

#[test]
fn non_empty_sources_carries_every_member_in_plan_order() {
    let set = ObservationSlotSet::new("observed_arms", Cardinality::OneOrMore);
    let held = state(vec![member("arm_2", 1), member("arm_1", 1)]);

    let sources = set.non_empty_sources(&held).expect("the slot observes something");
    assert_eq!(sources.len(), 2);
    assert_eq!(
        sources.first().producer,
        ProducerRef::new("core_a", "arm_2"),
        "first() is the plan's head, not the lowest instance_id"
    );
    assert_eq!(
        sources.iter().map(|s| s.producer.instance_id.clone()).collect::<Vec<_>>(),
        ["arm_2", "arm_1"]
    );
}

#[test]
#[should_panic(
    expected = "observer slot `observed_arms` is declared `one_or_more` but observes nothing"
)]
fn non_empty_sources_panics_when_a_one_or_more_slot_observes_nothing() {
    let set = ObservationSlotSet::new("observed_arms", Cardinality::OneOrMore);
    if let Err(message) = set.non_empty_sources(&ObservationState::unregistered()) {
        panic!("{message}");
    }
}

#[test]
#[should_panic(expected = "observer slot `observed_joints` is declared `zero_or_one`")]
fn a_scalar_accessor_on_a_multi_member_slot_panics() {
    let slot = ObservationSlot::new("observed_joints", Cardinality::ZeroOrOne);
    let held = state(vec![member("arm_1", 1), member("arm_2", 1)]);
    if let Err(message) = slot.read(&held) {
        panic!("{message}");
    }
}

#[test]
fn followed_pins_are_one_per_member_and_generation_keyed() {
    let before = state(vec![member("arm_1", 1), member("arm_2", 1)]);
    let after = state(vec![member("arm_1", 1), member("arm_2", 2)]);

    let before_pins = ObservedFollow::desired(&before);
    let after_pins = ObservedFollow::desired(&after);
    assert_eq!(before_pins.len(), 2);
    assert_eq!(
        before_pins[0], after_pins[0],
        "an untouched member keeps its pin, so its subscription survives"
    );
    assert_ne!(
        before_pins[1], after_pins[1],
        "an incarnation change must redeclare that member"
    );
    assert!(ObservedFollow::desired(&ObservationState::unregistered()).is_empty());
}

#[test]
fn late_deliveries_never_roll_a_slot_back() {
    let mut held = ObservationState::unregistered();
    let delivery = |sequence, name| ObservationState {
        sequence,
        members: vec![member(name, 1)],
    };
    assert_eq!(held.deliver(delivery(5, "five")), DeliveryOutcome::Replaced);
    assert_eq!(held.deliver(delivery(3, "three")), DeliveryOutcome::Stale);
    assert_eq!(held.deliver(delivery(5, "other")), DeliveryOutcome::Repeated);
    assert_eq!(held.members[0].source.producer.instance_id, "five");
    assert_eq!(held.deliver(delivery(6, "six")), DeliveryOutcome::Replaced);
    assert_eq!(held.sequence, 6);
}

fn peer_member(instance: &str) -> PeerMember {
    PeerMember {
        info: PeerInfo {
            producer: ProducerRef::new("core_a", instance),
            peer_link_id: "controller".to_string(),
        },
        copy: None,
    }
}

fn peer_state(sequence: u64, members: Vec<PeerMember>) -> PeerSetState {
    PeerSetState { sequence, members }
}

#[test]
fn a_scalar_slot_reports_its_one_pair() {
    let mut held = PeerSetState::empty();
    let slot = PeerSlot::new("arm", Cardinality::ZeroOrOne);
    assert_eq!(slot.paired(&held), None);
    held.deliver(peer_state(1, vec![peer_member("arm_1")]));
    assert_eq!(slot.paired(&held), Some(peer_member("arm_1").info));
    assert_eq!(slot.paired_member(&held), Some(peer_member("arm_1")));
}

#[test]
#[should_panic(expected = "cannot read")]
fn a_scalar_accessor_on_a_slot_holding_several_pairs_is_stale_codegen() {
    let slot = PeerSlot::new("arms", Cardinality::ZeroOrMore);
    let held = peer_state(1, vec![peer_member("arm_1"), peer_member("arm_2")]);
    if let Err(message) = slot.read(&held) {
        panic!("{message}");
    }
}

#[test]
fn a_set_lists_its_pairs_in_order() {
    let set = PeerSlotSet::new();
    assert!(set.peers(&PeerSetState::empty()).is_empty());
    let held = peer_state(1, vec![peer_member("arm_2"), peer_member("arm_1")]);
    assert_eq!(
        set.peers(&held)
            .iter()
            .map(|peer| peer.producer.instance_id.as_str())
            .collect::<Vec<_>>(),
        ["arm_2", "arm_1"]
    );
    assert_eq!(set.members(&held).first(), Some(&peer_member("arm_2")));
}

#[test]
fn a_one_or_more_set_reads_empty_once_every_peer_has_gone() {
    let mut held = PeerSetState::empty();
    let set = PeerSlotSet::new();
    held.deliver(peer_state(1, vec![peer_member("arm_1")]));
    assert_eq!(set.members(&held).len(), 1);
    held.deliver(peer_state(2, Vec::new()));
    assert!(set.members(&held).is_empty());
}

#[test]
fn wait_paired_returns_immediately_when_already_paired() {
    let held = peer_state(1, vec![peer_member("arm_1")]);
    let slot = PeerSlot::new("arm", Cardinality::One);
    match wait_paired_step(&slot, &held, false).expect("paired") {
        PairingWait::Paired(peer) => assert_eq!(peer, peer_member("arm_1").info),
        PairingWait::Waiting => panic!("no wait needed"),
    }
}

#[test]
fn wait_paired_wakes_on_live_pair() {
    let mut held = PeerSetState::empty();
    let slot = PeerSlot::new("arm", Cardinality::One);
    assert!(matches!(wait_paired_step(&slot, &held, false), Ok(PairingWait::Waiting)));
    held.deliver(peer_state(1, vec![peer_member("arm_1")]));
    match wait_paired_step(&slot, &held, false).expect("paired") {
        PairingWait::Paired(peer) => assert_eq!(peer, peer_member("arm_1").info),
        PairingWait::Waiting => panic!("the pair is there"),
    }
}

#[test]
fn wait_paired_errors_when_runtime_tears_down() {
    let slot = PeerSlot::new("arm", Cardinality::One);
    assert!(matches!(
        wait_paired_step(&slot, &PeerSetState::empty(), true),
        Err(Error::PairingSlotClosed)
    ));
}

#[test]
fn a_publish_goes_to_a_current_peer_only() {
    let mut publishers: PeerPublishers<&str> = PeerPublishers::new();
    let both = peer_state(1, vec![peer_member("arm_1"), peer_member("arm_2")]);
    let one = peer_member("arm_1").info;
    let two = peer_member("arm_2").info;
    assert!(matches!(
        publishers.publisher_for(&both, "arms", &one).expect("paired"),
        PublisherStep::Declare
    ));
    publishers.record(&one, "first");
    match publishers.publisher_for(&both, "arms", &one).expect("paired") {
        PublisherStep::Declared(at) => assert_eq!(*publishers.get(at), "first"),
        PublisherStep::Declare => panic!("the publisher is there"),
    }
    assert!(matches!(
        publishers.publisher_for(&both, "arms", &two).expect("paired"),
        PublisherStep::Declare
    ));
    publishers.record(&two, "second");
    let only_two = peer_state(2, vec![peer_member("arm_2")]);
    match publishers.publisher_for(&only_two, "arms", &one) {
        Err(Error::PeerNotPaired { link_id, peer }) => {
            assert_eq!(link_id, "arms");
            assert_eq!(peer, "core_a/arm_1 (slot `controller`)");
        }
        _ => panic!("an unpaired peer is refused"),
    }
    match publishers.publisher_for(&only_two, "arms", &two).expect("paired") {
        PublisherStep::Declared(at) => assert_eq!(*publishers.get(at), "second"),
        PublisherStep::Declare => panic!("the publisher is kept"),
    }
    assert!(
        matches!(
            publishers.publisher_for(&both, "arms", &one).expect("paired"),
            PublisherStep::Declare
        ),
        "a publisher is dropped with its pair"
    );
}

#[test]
fn convergence_keeps_what_is_followed_and_declares_the_rest() {
    let before = state(vec![member("arm_1", 1), member("arm_2", 1)]);
    let after = state(vec![member("arm_3", 1), member("arm_2", 2), member("arm_1", 1)]);
    let mut ids = Vec::new();
    for (n, pin) in ObservedFollow::desired(&before).into_iter().enumerate() {
        ids.push((pin, n));
    }
    let plan = begin_convergence::<ObservedFollow, usize>(ids, ObservedFollow::desired(&after));
    assert_eq!(plan.owed.len(), 2, "the new member and the new incarnation");
    let current = finish_convergence(plan, vec![Some(10), Some(11)]);
    let order: Vec<(String, usize)> = current
        .iter()
        .map(|(pin, id)| (pin.source().producer.instance_id.clone(), *id))
        .collect();
    assert_eq!(
        order,
        [("arm_3".to_string(), 10), ("arm_2".to_string(), 11), ("arm_1".to_string(), 0)]
    );
}

#[test]
fn a_failed_declaration_leaves_its_member_out() {
    let after = state(vec![member("arm_1", 1), member("arm_2", 1)]);
    let plan = begin_convergence::<ObservedFollow, usize>(Vec::new(), ObservedFollow::desired(&after));
    let current = finish_convergence(plan, vec![None, Some(5)]);
    assert_eq!(current.len(), 1);
    assert_eq!(current[0].0.source().producer.instance_id, "arm_2");
}

fn message(core_node: &str, instance_id: &str, link_id: &str) -> Message {
    Message::new(
        core_node.to_string(),
        instance_id.to_string(),
        link_id.to_string(),
        Payload::from_vec(vec![1]),
    )
}

#[test]
fn only_the_pins_own_publishes_are_forwarded() {
    let pins = ObservedFollow::desired(&state(vec![member("arm_1", 1)]));
    assert!(
        forward_message::<ObservedFollow>(&pins[0], message("core_a", "arm_1", "commander"))
            .is_some()
    );
    for stranger in [
        message("core_b", "arm_1", "commander"),
        message("core_a", "arm_2", "commander"),
        message("core_a", "arm_1", "other"),
    ] {
        assert!(forward_message::<ObservedFollow>(&pins[0], stranger).is_none());
    }
}

#[test]
fn a_buffered_message_surfaces_only_while_its_pin_is_followed() {
    let held = state(vec![member("arm_1", 1)]);
    let pin = || ObservedFollow::desired(&held).remove(0);
    let sent = || message("core_a", "arm_1", "commander");
    assert!(surface::<ObservedFollow>(&held, pin(), sent()).is_some());
    let reborn = state(vec![member("arm_1", 2)]);
    assert!(surface::<ObservedFollow>(&reborn, pin(), sent()).is_none());

    let paired = peer_state(1, vec![peer_member("arm_1")]);
    let peer = || peer_member("arm_1").info;
    assert!(surface::<PeerFollow>(&paired, peer(), sent()).is_some());
    assert!(surface::<PeerFollow>(&PeerSetState::empty(), peer(), sent()).is_none());
}

#[test]
fn a_forwarder_converges_before_it_receives() {
    let mut forwarder: Forwarder<&str, u8> = Forwarder::new();
    assert!(matches!(forwarder.next_step(), ForwardStep::Converge));
    assert!(forwarder.take_current().is_empty());
    forwarder.converged(Vec::new());
    assert!(matches!(forwarder.next_step(), ForwardStep::AwaitUpdate));
    forwarder.slot_changed();
    assert!(matches!(forwarder.next_step(), ForwardStep::Converge));
    forwarder.converged(vec![("a", 1), ("b", 2)]);
    assert!(matches!(forwarder.next_step(), ForwardStep::Receive { start: 0 }));
    assert!(matches!(forwarder.next_step(), ForwardStep::Receive { start: 1 }));
    assert_eq!(forwarder.source_closed(0), ("a", 1));
    assert_eq!(forwarder.current(), &vec![("b", 2)]);
    assert!(matches!(forwarder.next_step(), ForwardStep::Converge));
}

#[test]
fn a_forwarder_outlives_one_closed_subscription() {
    let held = state(vec![member("arm_1", 1), member("arm_2", 1)]);
    let mut forwarder = Forwarder::new();
    forwarder.converged(ObservedFollow::desired(&held).into_iter().zip([1u8, 2]).collect());

    let own = ForwardEvent::Received { index: 1, message: message("core_a", "arm_2", "commander") };
    match on_forward_event::<ObservedFollow, u8>(&mut forwarder, own) {
        ForwardOutcome::Deliver(pin, message) => {
            assert_eq!(pin.source().producer.instance_id, "arm_2");
            assert_eq!(message.payload().as_slice(), &[1]);
        }
        _ => panic!("the pin's own publish is delivered"),
    }
    let other =
        ForwardEvent::Received { index: 1, message: message("core_a", "arm_1", "commander") };
    assert!(matches!(
        on_forward_event::<ObservedFollow, u8>(&mut forwarder, other),
        ForwardOutcome::Continue
    ));
    assert!(matches!(
        on_forward_event::<ObservedFollow, u8>(
            &mut forwarder,
            ForwardEvent::SourceClosed { index: 0 }
        ),
        ForwardOutcome::Continue
    ));
    assert_eq!(forwarder.current().len(), 1);
    assert_eq!(forwarder.current()[0].1, 2);
    assert!(matches!(forwarder.next_step(), ForwardStep::Converge));
    for end in [ForwardEvent::SlotClosed, ForwardEvent::StreamDropped] {
        assert!(matches!(
            on_forward_event::<ObservedFollow, u8>(&mut forwarder, end),
            ForwardOutcome::Ended
        ));
    }
}
