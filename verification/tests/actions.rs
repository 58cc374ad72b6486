//! The client side of actions.
use peppylib::action_client::{ActionGoalHandle, ActionMessenger, ResultStart, ResultStep};
use peppylib::envelope::{
    unwrap_goal_payload, wrap_goal_ack, wrap_goal_payload, wrap_result_outcome, ResultStatus,
};
use peppylib::error::Error;
use peppylib::feedback::{
    end_sentinel, feedback_payload, is_end_sentinel, next_feedback, ActionTarget, FeedbackPoll,
    NonEmptyPayload,
};
use peppylib::liveliness::{
    ProducerGoneWatch, WatchAction, WatchEvent, LIVELINESS_PROBE_TIMEOUT,
    LIVELINESS_RESOLVE_TIMEOUT, PRODUCER_GONE_CONFIRM_DELAY,
};
use peppylib::message::Message;
use peppylib::payload::Payload;
use peppylib::producer::ProducerRef;
use peppylib::services::{CallPlan, DISCOVERY_TIMEOUT};

const ACTION: &str = "move_arm";

fn producer() -> ProducerRef {
    ProducerRef::new("core_a", "arm_1")
}

fn message(body: &[u8]) -> Message {
    Message::new(
        "core_a".to_string(),
        "arm_1".to_string(),
        "_".to_string(),
        Payload::from_vec(body.to_vec()),
    )
}

fn target() -> ActionTarget {
    ActionTarget { action_name: ACTION.to_string(), producer: Some(producer()) }
}

fn answered(reply: &[u8], watch: ProducerGoneWatch) -> Result<ActionGoalHandle, Error> {
    ActionMessenger::goal_answered("goal", ACTION, &producer(), &message(reply), watch)
}

fn handle() -> ActionGoalHandle {
    let ack = wrap_goal_ack(true, None, b"hello").expect("ack");
    match answered(ack.as_slice(), ProducerGoneWatch::new()) {
        Ok(handle) => handle,
        Err(error) => panic!("the reply is well formed: {error:?}"),
    }
}

fn gone_handle() -> ActionGoalHandle {
    let mut handle = handle();
    handle.on_watch_event(WatchEvent::Gone);
    handle.on_watch_event(WatchEvent::ProbedAbsent);
    handle.on_watch_event(WatchEvent::ProbedAbsent);
    handle
}

#[test]
fn a_goal_is_wrapped_under_a_fresh_id() {
    let plan = match ActionMessenger::send_goal(None, b"lift", 5_000_000_000) {
        Ok(plan) => plan,
        Err(error) => panic!("{error:?}"),
    };
    let (goal_id, body) = unwrap_goal_payload(plan.wire.as_slice()).expect("framed");
    assert_eq!(goal_id, plan.goal_id);
    assert_eq!(goal_id.len(), 16);
    assert_eq!(body, b"lift");
    match plan.call {
        CallPlan::Discover { scope, timeout } => {
            assert_eq!(scope.core_node, None);
            assert_eq!(scope.instance_id, None);
            assert_eq!(timeout, DISCOVERY_TIMEOUT);
        }
        CallPlan::Pinned(_) => panic!("nothing is pinned"),
    }
    match ActionMessenger::send_goal(Some(&producer()), b"", 1).ok().expect("planned").call {
        CallPlan::Pinned(resolved) => assert_eq!(resolved, producer()),
        CallPlan::Discover { .. } => panic!("a pin is addressed directly"),
    }
    assert!(ActionMessenger::prepare_goal("", None, b"", 1).is_err());
}

#[test]
fn discovery_counts_against_the_goal_budget() {
    assert_eq!(ActionMessenger::goal_budget(10, 4, &producer(), ACTION), Ok(6));
    assert_eq!(
        ActionMessenger::goal_budget(10, 10, &producer(), ACTION),
        Err(Error::ServiceTimeout {
            instance_id: Some("arm_1".to_string()),
            service_name: ACTION.to_string(),
        })
    );
}

#[test]
fn a_goal_reply_is_decoded() {
    let handle = handle();
    assert_eq!(handle.goal_id(), "goal");
    assert!(handle.goal_reply().accepted);
    assert_eq!(handle.goal_reply().reason, None);
    assert_eq!(handle.goal_reply().body.as_slice(), b"hello");
    assert_eq!(handle.goal_reply().instance_id, "arm_1");
    assert_eq!(handle.goal_reply().core_node, "core_a");
    assert_eq!(handle.sender().action_name, ACTION);
    let ack = wrap_goal_ack(false, Some("busy"), b"").expect("ack");
    let refused =
        answered(ack.as_slice(), ProducerGoneWatch::new()).ok().expect("decoded");
    assert!(!refused.goal_reply().accepted);
    assert_eq!(refused.goal_reply().reason.as_deref(), Some("busy"));
    assert!(matches!(
        answered(&[], ProducerGoneWatch::new()),
        Err(Error::InternalEncodingError { .. })
    ));
}

#[test]
fn cancel_and_result_requests_carry_the_goal_id() {
    let expected = wrap_goal_payload("goal", b"").expect("wrap");
    let cancel = ActionMessenger::cancel_goal(&handle()).ok().expect("framed");
    assert_eq!(cancel.as_slice(), expected.as_slice());
    let by_id = ActionMessenger::cancel_with_sender("goal").ok().expect("framed");
    assert_eq!(by_id.as_slice(), expected.as_slice());
    assert!(ActionMessenger::cancel_with_sender("").is_err());
    match ActionMessenger::request_result(&handle()) {
        Ok(ResultStart::Poll(wire)) => assert_eq!(wire.as_slice(), expected.as_slice()),
        _ => panic!("the producer is there: ask it"),
    }
}

#[test]
fn a_goal_of_a_gone_producer_is_abandoned_at_once() {
    match ActionMessenger::request_result(&gone_handle()) {
        Ok(ResultStart::Reply(reply)) => {
            assert_eq!(reply.status, ResultStatus::Abandoned);
            assert!(reply.body.is_empty());
            assert_eq!(reply.instance_id, "arm_1");
            assert_eq!(reply.core_node, "core_a");
        }
        _ => panic!("nobody is left to ask"),
    }
}

#[test]
fn a_result_reply_is_decoded() {
    let wire = wrap_result_outcome(ResultStatus::Completed, b"done");
    match ActionMessenger::on_result_outcome(&target(), Ok(message(wire.as_slice()))) {
        ResultStep::Reply(reply) => {
            assert_eq!(reply.status, ResultStatus::Completed);
            assert_eq!(reply.body.as_slice(), b"done");
            assert_eq!(reply.instance_id, "arm_1");
            assert_eq!(reply.core_node, "core_a");
        }
        _ => panic!("the result is there"),
    }
    assert!(matches!(
        ActionMessenger::on_result_outcome(&target(), Ok(message(&[]))),
        ResultStep::Failed(Error::InternalEncodingError { .. })
    ));
}

#[test]
fn an_unanswered_result_request_is_probed_first() {
    let instance = || Some("arm_1".to_string());
    let service = || ACTION.to_string();
    let timeout = Error::ServiceTimeout { instance_id: instance(), service_name: service() };
    let lost = Error::ServiceUnreachable { instance_id: instance(), service_name: service() };
    match ActionMessenger::on_result_outcome(&target(), Err(timeout)) {
        ResultStep::ProbeProducer(error) => assert_eq!(
            error,
            Error::ActionResultTimeout { instance_id: instance(), action_name: service() }
        ),
        _ => panic!("the producer is looked at first"),
    }
    match ActionMessenger::on_result_outcome(&target(), Err(lost)) {
        ResultStep::ProbeProducer(error) => assert_eq!(
            error,
            Error::ActionResultUnreachable { instance_id: instance(), action_name: service() }
        ),
        _ => panic!("the producer is looked at first"),
    }
    assert!(matches!(
        ActionMessenger::on_result_outcome(&target(), Err(Error::Transport("x".to_string()))),
        ResultStep::Failed(Error::Transport(_))
    ));
}

#[test]
fn only_a_confirmed_absence_abandons_a_goal() {
    let error = || Error::ActionResultTimeout {
        instance_id: Some("arm_1".to_string()),
        action_name: ACTION.to_string(),
    };
    let reply = ActionMessenger::on_producer_probed(&target(), error(), Ok(false))
        .ok()
        .expect("abandoned");
    assert_eq!(reply.status, ResultStatus::Abandoned);
    for alive in [Ok(true), Err(Error::Transport("inconclusive".to_string()))] {
        match ActionMessenger::on_producer_probed(&target(), error(), alive) {
            Err(kept) => assert_eq!(kept, error()),
            Ok(_) => panic!("nothing was confirmed"),
        }
    }
    let unpinned = ActionTarget { action_name: ACTION.to_string(), producer: None };
    let reply = ActionMessenger::on_producer_probed(&unpinned, error(), Ok(false))
        .ok()
        .expect("abandoned");
    assert_eq!(reply.instance_id, "");
    assert_eq!(reply.core_node, "");
}

#[test]
fn buffered_feedback_comes_before_the_loss_of_the_producer() {
    let gone = gone_handle();
    assert!(gone.is_producer_gone());
    match gone.try_next_feedback(FeedbackPoll::Received(message(b"50%"))) {
        Ok(Some(feedback)) => assert_eq!(feedback.payload_bytes(), b"50%"),
        _ => panic!("buffered feedback is drained first"),
    }
    assert!(matches!(
        gone.try_next_feedback(FeedbackPoll::Received(message(b""))),
        Err(Error::ActionFeedbackChannelClosed)
    ));
    match gone.try_next_feedback(FeedbackPoll::Empty) {
        Err(Error::ActionFeedbackProducerGone { instance_id, action_name }) => {
            assert_eq!(instance_id.as_deref(), Some("arm_1"));
            assert_eq!(action_name, ACTION);
        }
        _ => panic!("the producer is gone"),
    }
    let there = handle();
    assert!(!there.is_producer_gone());
    assert!(matches!(there.try_next_feedback(FeedbackPoll::Empty), Ok(None)));
    assert!(matches!(
        there.try_next_feedback(FeedbackPoll::Disconnected),
        Err(Error::ActionFeedbackChannelClosed)
    ));
    assert!(matches!(next_feedback(&target(), FeedbackPoll::Empty, false), Ok(None)));
}

#[test]
fn only_the_empty_payload_ends_a_stream() {
    assert!(end_sentinel().is_empty());
    assert!(is_end_sentinel(&message(b"")));
    assert!(!is_end_sentinel(&message(&[0])));
    assert!(NonEmptyPayload::try_new(Payload::new()).is_err());
    let payload = NonEmptyPayload::try_new(Payload::from_vec(vec![0])).ok().expect("one byte");
    assert_eq!(feedback_payload(payload).as_slice(), &[0]);
}

#[test]
fn a_producer_is_gone_only_after_every_probe_missed_it() {
    let mut watch = ProducerGoneWatch::new();
    assert_eq!(watch.action(), WatchAction::AwaitWithin(LIVELINESS_RESOLVE_TIMEOUT));
    watch.on_event(WatchEvent::WindowElapsed);
    let probe = WatchAction::ProbeAfter {
        delay: PRODUCER_GONE_CONFIRM_DELAY,
        timeout: LIVELINESS_PROBE_TIMEOUT,
    };
    assert_eq!(watch.action(), probe);
    watch.on_event(WatchEvent::ProbedAbsent);
    assert_eq!(watch.action(), probe);
    assert!(!watch.is_gone());
    watch.on_event(WatchEvent::ProbedPresent);
    assert_eq!(watch.action(), WatchAction::Await);
    watch.on_event(WatchEvent::Gone);
    watch.on_event(WatchEvent::ProbedAbsent);
    watch.on_event(WatchEvent::ProbeFailed);
    assert!(!watch.is_gone(), "a failed probe settles nothing");
    watch.on_event(WatchEvent::Gone);
    watch.on_event(WatchEvent::ProbedAbsent);
    watch.on_event(WatchEvent::ProbedAbsent);
    assert!(watch.is_gone());
    assert_eq!(watch.action(), WatchAction::Stop);
}

#[test]
fn a_goal_takes_over_the_watch_that_ran_during_its_request() {
    let mut watch = ProducerGoneWatch::new();
    watch.on_event(WatchEvent::Gone);
    watch.on_event(WatchEvent::ProbedAbsent);
    let ack = wrap_goal_ack(true, None, b"").expect("ack");
    let mut handle = answered(ack.as_slice(), watch).ok().expect("decoded");
    assert!(!handle.is_producer_gone());
    handle.on_watch_event(WatchEvent::ProbedAbsent);
    assert!(handle.is_producer_gone());
}

#[test]
fn a_closed_watch_declares_nothing() {
    let mut watch = ProducerGoneWatch::new();
    watch.on_event(WatchEvent::Alive);
    watch.on_event(WatchEvent::Closed);
    assert_eq!(watch.action(), WatchAction::Stop);
    assert!(!watch.is_gone());
    assert_eq!(handle().watch_action(), WatchAction::AwaitWithin(LIVELINESS_RESOLVE_TIMEOUT));
}
