//! Service calls and their deadlines.
use peppylib::discovery::{
    discover_producer_among, discovered, probe_any_reachable, probe_fastest_round_trip,
    probe_reachable, probe_round_trip,
};
use peppylib::error::{Error, Result};
use peppylib::message::Message;
use peppylib::payload::Payload;
use peppylib::presence::CoreNodePresenceMessenger;
use peppylib::producer::ProducerRef;
use peppylib::services::{
    after_acknowledgement, handler_outcome, next_request, AttemptStep, CallPlan, ClosedStep,
    FinalReply, HandlerOutcome, Incoming, RequestStep, ServiceCall, ServiceMessenger,
    ServiceRequestContext, ServiceTarget, DISCOVERY_TIMEOUT,
};

const MILLISECOND: u128 = 1_000_000;
const BUDGET: u128 = 1_000 * MILLISECOND;
const CORE: &str = "deadline_core";
const PRODUCER: &str = "deadline_producer";
const SERVICE: &str = "deadline_service";

fn call(deadline: Option<u128>) -> ServiceCall {
    ServiceCall::new(Some(PRODUCER.to_string()), SERVICE.to_string(), deadline)
}

fn reply(body: &[u8]) -> Message {
    Message::new(
        CORE.to_string(),
        PRODUCER.to_string(),
        "_".to_string(),
        Payload::from_vec(body.to_vec()),
    )
}

fn assert_deadline_error(error: Error, acknowledged: bool) {
    let expected = if acknowledged {
        Error::ServiceTimeout {
            instance_id: Some(PRODUCER.to_string()),
            service_name: SERVICE.to_string(),
        }
    } else {
        Error::ServiceUnreachable {
            instance_id: Some(PRODUCER.to_string()),
            service_name: SERVICE.to_string(),
        }
    };
    assert_eq!(error, expected);
}

fn failed(outcome: Option<Result<Message>>) -> Error {
    match outcome {
        Some(Err(error)) => error,
        Some(Ok(_)) => panic!("expected an error"),
        None => panic!("the call still waits"),
    }
}

#[test]
fn a_result_ready_when_polled_wins_at_and_after_the_deadline() {
    for elapsed in [BUDGET - MILLISECOND, BUDGET, BUDGET + MILLISECOND] {
        let call = call(Some(BUDGET));
        assert!(call.poll(None, 0).is_none());
        match call.poll(Some(FinalReply::Response(reply(b"42"))), elapsed) {
            Some(Ok(message)) => assert_eq!(message.payload_bytes(), b"42", "elapsed {elapsed}"),
            _ => panic!("the reply in hand wins"),
        }
    }
}

#[test]
fn mutex_wait_expires_without_issuing_even_if_released_late() {
    let call = call(Some(BUDGET));
    for late in [BUDGET, BUDGET + MILLISECOND] {
        match call.begin_attempt(late) {
            AttemptStep::Expired(error) => assert_deadline_error(error, false),
            AttemptStep::Issue(_) => panic!("an expired call issues nothing"),
        }
    }
}

#[test]
fn lock_wait_is_subtracted_from_the_transport_budget() {
    let call = call(Some(BUDGET));
    assert!(matches!(call.begin_attempt(0), AttemptStep::Issue(Some(BUDGET))));
    match call.begin_attempt(250 * MILLISECOND) {
        AttemptStep::Issue(Some(budget)) => assert_eq!(budget, BUDGET - 250 * MILLISECOND),
        _ => panic!("the call has time left"),
    }
}

#[test]
fn pending_reply_expiry_preserves_ack_classification() {
    for received_ack in [false, true] {
        let mut call = call(Some(BUDGET));
        if received_ack {
            call.on_acknowledged();
        }
        assert!(call.poll(None, BUDGET - 1).is_none());
        assert_deadline_error(failed(call.poll(None, BUDGET)), received_ack);
    }
}

#[test]
fn a_terminal_reply_in_hand_wins_when_the_caller_resumes_after_expiry() {
    for received_ack in [false, true] {
        for handler_error in [false, true] {
            let mut call = call(Some(BUDGET));
            if received_ack {
                call.on_acknowledged();
            }
            let late = BUDGET + MILLISECOND;
            if handler_error {
                let error = failed(
                    call.poll(Some(FinalReply::HandlerError("handler failed".to_string())), late),
                );
                match error {
                    Error::ServiceError { instance_id, service_name, reason } => {
                        assert_eq!(instance_id.as_deref(), Some(PRODUCER));
                        assert_eq!(service_name, SERVICE);
                        assert_eq!(reason, "handler failed");
                    }
                    error => panic!("expected the handler error in hand, got {error:?}"),
                }
            } else {
                match call.poll(Some(FinalReply::Response(reply(b"reply"))), late) {
                    Some(Ok(message)) => {
                        assert_eq!(message.payload_bytes(), b"reply", "ACK={received_ack}")
                    }
                    _ => panic!("the reply in hand wins"),
                }
            }
        }
    }
}

#[test]
fn timely_terminal_replies_preserve_payloads_and_handler_errors() {
    for response_timeout in [Some(BUDGET), None] {
        let mut call = call(response_timeout);
        call.on_acknowledged();
        let error =
            failed(call.poll(Some(FinalReply::HandlerError("handler failed".to_string())), 0));
        assert_eq!(
            error,
            Error::ServiceError {
                instance_id: Some(PRODUCER.to_string()),
                service_name: SERVICE.to_string(),
                reason: "handler failed".to_string(),
            }
        );
        match call.poll(Some(FinalReply::Response(reply(b"reply"))), 0) {
            Some(Ok(message)) => {
                assert_eq!(message.payload_bytes(), b"reply");
                assert_eq!(message.instance_id(), PRODUCER);
                assert_eq!(message.core_node(), CORE);
            }
            _ => panic!("the reply is there"),
        }
    }
}

#[test]
fn stream_closure_without_a_retry_preserves_ack_classification() {
    for (response_timeout, received_ack) in [(None, false), (None, true), (Some(BUDGET), true)] {
        let mut call = call(response_timeout);
        if received_ack {
            call.on_acknowledged();
        }
        match call.on_closed(0) {
            ClosedStep::Failed(error) => assert_deadline_error(error, received_ack),
            ClosedStep::RetryAt(_) => {
                panic!("closed reply stream must finish without a retry")
            }
        }
    }
}

#[test]
fn cold_start_retry_reaches_a_new_producer_after_backoff() {
    let call = call(Some(BUDGET));
    match call.on_closed(0) {
        ClosedStep::RetryAt(at) => assert_eq!(at, 50 * MILLISECOND),
        ClosedStep::Failed(_) => panic!("nobody was there yet"),
    }
    assert!(matches!(call.begin_attempt(50 * MILLISECOND), AttemptStep::Issue(Some(_))));
}

#[test]
fn cold_start_retries_share_one_deadline_and_cap_the_final_backoff() {
    let budget = 125 * MILLISECOND;
    let call = call(Some(budget));
    let mut now = 0;
    for attempt in 0..3u128 {
        assert_eq!(now, attempt * 50 * MILLISECOND);
        assert!(matches!(call.begin_attempt(now), AttemptStep::Issue(Some(_))));
        match call.on_closed(now) {
            ClosedStep::RetryAt(at) => now = at,
            ClosedStep::Failed(_) => panic!("the call has time left"),
        }
        assert_eq!(now, ((attempt + 1) * 50 * MILLISECOND).min(budget));
    }
    assert_eq!(now, budget);
    match call.begin_attempt(now) {
        AttemptStep::Expired(error) => assert_deadline_error(error, false),
        AttemptStep::Issue(_) => {
            panic!("retry backoff must not exceed the remaining caller budget")
        }
    }
}

#[test]
fn unbounded_call_waits_for_the_lock_and_response() {
    let call = call(None);
    assert!(matches!(call.begin_attempt(BUDGET * 100), AttemptStep::Issue(None)));
    assert!(call.poll(None, BUDGET * 200).is_none());
    match call.poll(Some(FinalReply::Response(reply(b"unbounded reply"))), BUDGET * 200) {
        Some(Ok(message)) => assert_eq!(message.payload_bytes(), b"unbounded reply"),
        _ => panic!("the reply is there"),
    }
}

#[test]
fn discovery_and_the_user_request_share_the_tokio_budget() {
    match ServiceMessenger::plan_poll(ServiceTarget::Any, Some(BUDGET)) {
        CallPlan::Discover { scope, timeout } => {
            assert_eq!(scope.core_node, None);
            assert_eq!(scope.instance_id, None);
            assert_eq!(timeout, BUDGET);
        }
        CallPlan::Pinned(_) => panic!("nothing is pinned"),
    }
    let resolved = ProducerRef::new(CORE, PRODUCER);
    let left = |elapsed| ServiceMessenger::poll_budget(Some(BUDGET), elapsed, &resolved, SERVICE);
    assert_eq!(left(400 * MILLISECOND), Ok(Some(BUDGET - 400 * MILLISECOND)));
    for used_up in [BUDGET, BUDGET + 1] {
        assert_eq!(
            left(used_up),
            Err(Error::ServiceTimeout {
                instance_id: Some(PRODUCER.to_string()),
                service_name: SERVICE.to_string(),
            })
        );
    }
    assert_eq!(ServiceMessenger::poll_budget(None, BUDGET, &resolved, SERVICE), Ok(None));
}

#[test]
fn a_full_pin_is_never_discovered() {
    let producer = ProducerRef::new(CORE, PRODUCER);
    match ServiceMessenger::plan_poll(ServiceTarget::Producer(&producer), None) {
        CallPlan::Pinned(resolved) => assert_eq!(resolved, producer),
        CallPlan::Discover { .. } => panic!("a pin is addressed directly"),
    }
    match ServiceMessenger::plan_poll(ServiceTarget::CoreNode("core"), None) {
        CallPlan::Discover { scope, timeout } => {
            assert_eq!(scope.core_node.as_deref(), Some("core"));
            assert_eq!(scope.instance_id, None);
            assert_eq!(timeout, DISCOVERY_TIMEOUT);
        }
        CallPlan::Pinned(_) => panic!("nothing is pinned"),
    }
    match ServiceMessenger::plan_poll(ServiceTarget::Any, Some(DISCOVERY_TIMEOUT * 5)) {
        CallPlan::Discover { timeout, .. } => assert_eq!(timeout, DISCOVERY_TIMEOUT),
        CallPlan::Pinned(_) => panic!("nothing is pinned"),
    }
    let target = ServiceTarget::Producer(&producer).wire_target();
    assert_eq!(target.core_node.as_deref(), Some(CORE));
    assert_eq!(target.instance_id.as_deref(), Some(PRODUCER));
}

#[test]
fn a_service_drops_probes_and_unreachable_callers() {
    assert!(matches!(next_request(Incoming::Probe, "id".to_string()), RequestStep::Skip));
    assert!(matches!(next_request(Incoming::Closed, "id".to_string()), RequestStep::Closed));
    let incoming = Incoming::UserRequest {
        message: reply(b"ask"),
        link_id: "camera".to_string(),
    };
    match next_request(incoming, "id".to_string()) {
        RequestStep::Acknowledge(context) => {
            assert_eq!(context.message().payload_bytes(), b"ask");
            assert_eq!(context.request_id(), "id");
            assert_eq!(context.link_id(), "camera");
            assert!(after_acknowledgement(context, true).is_some());
        }
        _ => panic!("a request is acknowledged"),
    }
    let context =
        ServiceRequestContext::new(reply(b""), "id".to_string(), "camera".to_string());
    assert!(after_acknowledgement(context, false).is_none());
}

#[test]
fn a_handler_outcome_is_sent_as_it_is() {
    match handler_outcome(Ok(Payload::from_vec(vec![3]))) {
        HandlerOutcome::Response(payload) => assert_eq!(payload.as_slice(), &[3]),
        HandlerOutcome::HandlerError(_) => panic!("the handler succeeded"),
    }
    match handler_outcome(Err("no".to_string())) {
        HandlerOutcome::HandlerError(reason) => assert_eq!(reason, "no"),
        HandlerOutcome::Response(_) => panic!("the handler failed"),
    }
}

fn timeout() -> Error {
    Error::ServiceTimeout { instance_id: None, service_name: SERVICE.to_string() }
}

fn unreachable() -> Error {
    Error::ServiceUnreachable { instance_id: None, service_name: SERVICE.to_string() }
}

#[test]
fn a_slow_producer_is_reachable() {
    assert_eq!(probe_reachable(Ok(reply(b""))), Ok(true));
    assert_eq!(probe_reachable(Err(timeout())), Ok(true));
    assert_eq!(probe_reachable(Err(unreachable())), Ok(false));
    let other = || Error::Transport("down".to_string());
    assert_eq!(probe_reachable(Err(other())), Err(other()));
}

#[test]
fn one_reachable_producer_is_enough() {
    let error = |name: &str| Error::Transport(name.to_string());
    assert_eq!(probe_any_reachable(Vec::new()), Ok(false));
    assert_eq!(probe_any_reachable(vec![Ok(false), Ok(false)]), Ok(false));
    assert_eq!(probe_any_reachable(vec![Err(error("a")), Ok(true)]), Ok(true));
    assert_eq!(
        probe_any_reachable(vec![Ok(false), Err(error("a")), Err(error("b"))]),
        Err(error("a")),
        "the first error counts when nobody answered"
    );
}

#[test]
fn discovery_pins_who_answered() {
    let producer = discovered(&reply(b"probe"));
    assert_eq!(producer, ProducerRef::new(CORE, PRODUCER));
    assert_eq!(discover_producer_among(1, Some(producer.clone()), SERVICE), Ok(producer));
    assert_eq!(discover_producer_among(2, None, SERVICE), Err(unreachable()));
    assert_eq!(discover_producer_among(0, None, SERVICE), Err(unreachable()));
}

#[test]
fn a_latency_sample_has_time_and_size() {
    assert_eq!(probe_round_trip(17, Ok(reply(b"four"))), Ok((17, 4)));
    assert_eq!(probe_round_trip(17, Err(timeout())), Err(timeout()));
    assert_eq!(probe_fastest_round_trip(2, Ok((17, 4)), SERVICE), Ok((17, 4)));
    assert_eq!(probe_fastest_round_trip(2, Err(timeout()), SERVICE), Err(timeout()));
    assert_eq!(probe_fastest_round_trip(0, Ok((17, 4)), SERVICE), Err(unreachable()));
}

#[test]
fn presence_reports_the_first_invalid_name() {
    let bad = |name: &str| Err(Error::Transport(name.to_string()));
    let good = |name: &str| Ok(name.to_string());
    let claim = CoreNodePresenceMessenger::declare(good("core"), good("daemon")).expect("valid");
    assert_eq!((claim.core_node.as_str(), claim.instance_id.as_str()), ("core", "daemon"));
    assert_eq!(
        CoreNodePresenceMessenger::declare(bad("core"), bad("daemon")),
        Err(Error::Transport("core".to_string()))
    );
    assert_eq!(
        CoreNodePresenceMessenger::declare(good("core"), bad("daemon")),
        Err(Error::Transport("daemon".to_string()))
    );
    assert_eq!(CoreNodePresenceMessenger::watch(good("core")), Ok(Some("core".to_string())));
    assert_eq!(CoreNodePresenceMessenger::list_live(None), Ok(None));
    assert_eq!(
        CoreNodePresenceMessenger::list_live(Some(good("core"))),
        Ok(Some("core".to_string()))
    );
    assert!(CoreNodePresenceMessenger::list_live(Some(bad("core"))).is_err());
}
