//! The action server's engine: routing, results, retention.
use peppylib::action_server::{
    cancel_loop_turn, handle_cancel_request, handle_result_request, result_loop_turn, CancelReply,
    LoopEvent, LoopStep, ResultReply,
};
use peppylib::cancel_ack::{decode_cancel_ack, CancelState};
use peppylib::engine::{
    GoalEngine, GoalOutcome, ResultAct, EXPIRED_TOMBSTONE_CAP, PENDING_WAITERS_CAP,
    PENDING_WAITER_MAX_PARK, RESULT_RETENTION_GRACE,
};
use peppylib::envelope::{unwrap_result_outcome, wrap_goal_payload, ResultStatus};
use peppylib::error::Error;
use peppylib::feedback::NonEmptyPayload;
use peppylib::goal::{ConcurrentAction, GoalContext};
use peppylib::message::Message;
use peppylib::payload::Payload;
use peppylib::services::ServiceRequestContext;
use peppylib::tombstones::ExpiredTombstones;

const MILLISECOND: u128 = 1_000_000;
const SECOND: u128 = 1_000_000_000;

/// Registers `goal_id` and ends it at `ended` with this retention.
fn terminal_slot(engine: &mut GoalEngine<u32>, goal_id: &str, ended: u128, retention: u128) {
    let (slot, _) = engine.accept(goal_id, b"").expect("accept");
    let delivery = engine.deliver(slot, GoalOutcome::Abandoned, ended, retention);
    assert!(delivery.is_some());
}

fn outcome(act: ResultAct<u32>) -> (u32, ResultStatus, Vec<u8>) {
    match act {
        ResultAct::Reply { responder, payload } => {
            let (status, body) = unwrap_result_outcome(payload.as_slice()).expect("framed");
            (responder, status, body.to_vec())
        }
        ResultAct::Parked => panic!("the poll was parked"),
        ResultAct::Dropped => panic!("the poll was dropped"),
    }
}

fn assert_parked(act: ResultAct<u32>) {
    assert!(matches!(act, ResultAct::Parked));
}

#[test]
fn sweep_evicts_only_terminal_slots_past_their_window() {
    let now = 100 * SECOND;
    let mut engine: GoalEngine<u32> = GoalEngine::new();
    terminal_slot(&mut engine, "expired", now - 2 * MILLISECOND, MILLISECOND);
    terminal_slot(&mut engine, "fresh", now, 10 * SECOND);

    engine.sweep_once(&Vec::new(), now);

    assert!(!engine.is_routable("expired"), "past-window slot should be evicted");
    assert!(engine.is_routable("fresh"), "in-window slot should be retained");
    assert!(engine.is_tombstoned("expired"), "evicted goal should be tombstoned");
    assert!(!engine.is_tombstoned("fresh"), "retained goal should not be tombstoned");
}

#[test]
fn sweep_skips_slot_whose_state_is_momentarily_locked() {
    let now = 100 * SECOND;
    let mut engine: GoalEngine<u32> = GoalEngine::new();
    terminal_slot(&mut engine, "busy", now - 2 * SECOND, SECOND);

    engine.sweep_once(&vec!["busy".to_string()], now);

    assert!(
        engine.is_routable("busy"),
        "a slot whose state is locked must be skipped and retried next tick"
    );
    assert!(!engine.is_tombstoned("busy"));
    engine.sweep_once(&Vec::new(), now);
    assert!(!engine.is_routable("busy"));
    assert!(engine.is_tombstoned("busy"));
}

#[test]
fn a_sweep_spares_running_goals() {
    let mut engine: GoalEngine<u32> = GoalEngine::new();
    let (slot, _) = engine.accept("running", b"").expect("accept");
    engine.sweep_once(&Vec::new(), u128::MAX);
    assert!(engine.is_routable("running"));
    assert!(engine.is_pending(slot));
}

#[test]
fn the_first_outcome_wins() {
    let mut engine: GoalEngine<u32> = GoalEngine::new();
    let (slot, _) = engine.accept("goal", b"").expect("accept");
    assert!(engine
        .deliver(slot, GoalOutcome::Completed(Payload::from_vec(b"one".to_vec())), 0, SECOND)
        .is_some());
    assert!(engine
        .deliver(slot, GoalOutcome::Cancelled(Payload::from_vec(b"two".to_vec())), 0, SECOND)
        .is_none());
    assert_eq!(
        outcome(engine.poll_result("goal", 7, 1)),
        (7, ResultStatus::Completed, b"one".to_vec())
    );
}

#[test]
fn a_result_is_served_until_its_window_closes() {
    let mut engine: GoalEngine<u32> = GoalEngine::new();
    let (slot, _) = engine.accept("goal", b"").expect("accept");
    engine.deliver(slot, GoalOutcome::Completed(Payload::from_vec(vec![9])), 0, SECOND);
    assert_eq!(
        outcome(engine.poll_result("goal", 1, SECOND - 1)),
        (1, ResultStatus::Completed, vec![9])
    );
    assert_eq!(
        outcome(engine.poll_result("goal", 2, SECOND)),
        (2, ResultStatus::Expired, Vec::new()),
        "past its window the result is expired even before the sweep"
    );
    engine.sweep_once(&Vec::new(), SECOND);
    assert_eq!(outcome(engine.poll_result("goal", 3, SECOND)), (3, ResultStatus::Expired, vec![]));
}

#[test]
fn waiting_polls_are_woken_with_the_outcome() {
    let mut engine: GoalEngine<u32> = GoalEngine::new();
    assert_parked(engine.poll_result("goal", 1, 0));
    assert_eq!(engine.parked_count(), 1);
    let (slot, _) = engine.accept("goal", b"").expect("accept");
    assert_eq!(engine.parked_count(), 0, "an early poll is adopted");
    assert_parked(engine.poll_result("goal", 2, 0));
    let delivery = engine
        .deliver(slot, GoalOutcome::Cancelled(Payload::from_vec(b"x".to_vec())), 5, SECOND)
        .expect("the first outcome");
    assert_eq!(delivery.waiters, vec![1, 2]);
    let (status, body) = unwrap_result_outcome(delivery.reply.as_slice()).expect("framed");
    assert_eq!(status, ResultStatus::Cancelled);
    assert_eq!(body, b"x");
}

#[test]
fn early_polls_are_bounded_and_expire() {
    let mut engine: GoalEngine<u32> = GoalEngine::new();
    for poll in 0..PENDING_WAITERS_CAP as u32 {
        assert_parked(engine.poll_result("early", poll, 0));
    }
    assert!(matches!(engine.poll_result("early", 5000, 0), ResultAct::Dropped));
    engine.sweep_once(&Vec::new(), PENDING_WAITER_MAX_PARK - 1);
    assert_eq!(engine.parked_count(), PENDING_WAITERS_CAP);
    engine.sweep_once(&Vec::new(), PENDING_WAITER_MAX_PARK);
    assert_eq!(engine.parked_count(), 0);
}

#[test]
fn a_cancel_is_typed() {
    let mut engine: GoalEngine<u32> = GoalEngine::new();
    assert_eq!(engine.cancel("nobody").state, CancelState::Unknown);
    let (slot, _) = engine.accept("goal", b"").expect("accept");
    assert!(!engine.is_cancelled(slot));
    let act = engine.cancel("goal");
    assert_eq!(act.state, CancelState::Signalled);
    assert_eq!(act.signal, Some(slot));
    assert!(engine.is_cancelled(slot));
    engine.deliver(slot, GoalOutcome::Abandoned, 0, SECOND);
    let act = engine.cancel("goal");
    assert_eq!(act.state, CancelState::AlreadyTerminal);
    assert_eq!(act.signal, None);
    engine.sweep_once(&Vec::new(), SECOND);
    assert_eq!(engine.cancel("goal").state, CancelState::AlreadyTerminal);
    assert!(engine.is_cancelled(slot), "the eviction does not undo the cancel");
    engine.release(slot);
    assert!(!engine.is_cancelled(slot));
}

#[test]
fn a_cancel_is_remembered_while_the_context_lives() {
    let mut engine: GoalEngine<u32> = GoalEngine::new();
    let evicted = accepted(&mut engine, "evicted", false);
    let displaced = accepted(&mut engine, "goal", false);
    assert!(!displaced.is_cancelled(&engine));
    engine.cancel("evicted");
    engine.cancel("goal");
    assert!(evicted.is_cancelled(&engine));
    assert!(displaced.is_cancelled(&engine));

    let newest = accepted(&mut engine, "goal", false);
    assert!(!newest.is_cancelled(&engine), "a reused goal id starts afresh");
    displaced.complete_cancelled(&mut engine, Payload::new(), 0);
    assert!(displaced.is_cancelled(&engine));

    evicted.complete_cancelled(&mut engine, Payload::new(), 0);
    engine.sweep_once(&Vec::new(), RESULT_RETENTION_GRACE);
    assert!(!engine.is_routable("evicted"));
    assert!(evicted.is_cancelled(&engine));
    assert!(!newest.is_cancelled(&engine));

    let slot = evicted.slot();
    evicted.abandon(&mut engine, RESULT_RETENTION_GRACE);
    assert!(!engine.is_cancelled(slot), "nobody asks any more");
    assert!(displaced.is_cancelled(&engine));
}

#[test]
fn a_withdrawn_goal_is_unknown_again() {
    let mut engine: GoalEngine<u32> = GoalEngine::new();
    assert_parked(engine.poll_result("goal", 1, 0));
    let (slot, _) = engine.accept("goal", b"").expect("accept");
    engine.unregister("goal", slot);
    assert!(!engine.is_routable("goal"));
    assert_eq!(engine.cancel("goal").state, CancelState::Unknown);
    assert!(engine.deliver(slot, GoalOutcome::Abandoned, 0, SECOND).is_none());
}

#[test]
fn a_reused_goal_id_is_routed_to_its_newest_goal() {
    let mut engine: GoalEngine<u32> = GoalEngine::new();
    let (first, _) = engine.accept("goal", b"").expect("accept");
    let (second, _) = engine.accept("goal", b"").expect("accept");
    assert_ne!(first, second);
    assert_eq!(engine.cancel("goal").signal, Some(second));
    engine.deliver(first, GoalOutcome::Completed(Payload::from_vec(vec![1])), 0, SECOND);
    assert_parked(engine.poll_result("goal", 3, 0));
    engine.deliver(second, GoalOutcome::Completed(Payload::from_vec(vec![2])), 0, SECOND);
    assert_eq!(outcome(engine.poll_result("goal", 4, 0)), (4, ResultStatus::Completed, vec![2]));
}

#[test]
fn requests_without_a_goal_id_are_refused() {
    let mut engine: GoalEngine<u32> = GoalEngine::new();
    match handle_cancel_request(&mut engine, &[]) {
        CancelReply::Refused(reason) => assert_eq!(reason, "malformed cancel request payload"),
        CancelReply::Answered { .. } => panic!("expected a refusal"),
    }
    match handle_result_request(&mut engine, &[3, b'a'], 8, 0) {
        ResultReply::Refused { responder, reason } => {
            assert_eq!(responder, 8);
            assert_eq!(reason, "malformed result request payload");
        }
        ResultReply::Routed(_) => panic!("expected a refusal"),
    }
}

#[test]
fn requests_are_routed_by_their_goal_id() {
    let mut engine: GoalEngine<u32> = GoalEngine::new();
    let (slot, _) = engine.accept("goal", b"").expect("accept");
    let request = wrap_goal_payload("goal", b"").expect("wrap");
    match handle_cancel_request(&mut engine, request.as_slice()) {
        CancelReply::Answered { payload, signal } => {
            assert_eq!(
                decode_cancel_ack(payload.as_slice()).expect("decode"),
                CancelState::Signalled
            );
            assert_eq!(signal, Some(slot));
        }
        CancelReply::Refused(reason) => panic!("refused: {reason}"),
    }
    match handle_result_request(&mut engine, request.as_slice(), 8, 0) {
        ResultReply::Routed(act) => assert_parked(act),
        ResultReply::Refused { reason, .. } => panic!("refused: {reason}"),
    }
}

fn requested(wire: &Payload, responder: u32) -> LoopEvent<u32> {
    LoopEvent::Requested { request: Payload::from_vec(wire.as_slice().to_vec()), responder }
}

#[test]
fn the_cancel_loop_answers_each_request_and_ends_with_its_stream() {
    let mut engine: GoalEngine<u32> = GoalEngine::new();
    let (slot, _) = engine.accept("goal", b"").expect("accept");
    let request = wrap_goal_payload("goal", b"").expect("wrap");
    match cancel_loop_turn(&mut engine, requested(&request, 5)) {
        LoopStep::Answer { responder, payload, signal } => {
            assert_eq!(responder, 5);
            assert_eq!(signal, Some(slot));
            assert_eq!(
                decode_cancel_ack(payload.as_slice()).expect("decode"),
                CancelState::Signalled
            );
        }
        _ => panic!("a request that names a goal is answered"),
    }
    match cancel_loop_turn(&mut engine, requested(&Payload::from_vec(Vec::new()), 6)) {
        LoopStep::Refuse { responder, reason } => {
            assert_eq!(responder, 6);
            assert_eq!(reason, "malformed cancel request payload");
        }
        _ => panic!("a request without a goal id is refused"),
    }
    for event in [LoopEvent::Stopped, LoopEvent::Closed, LoopEvent::Failed] {
        let event: LoopEvent<u32> = event;
        assert!(matches!(cancel_loop_turn(&mut engine, event), LoopStep::End));
    }
}

#[test]
fn the_result_loop_parks_until_the_outcome_is_there() {
    let mut engine: GoalEngine<u32> = GoalEngine::new();
    let (slot, _) = engine.accept("goal", b"").expect("accept");
    let request = wrap_goal_payload("goal", b"").expect("wrap");
    assert!(matches!(
        result_loop_turn(&mut engine, requested(&request, 5), 0),
        LoopStep::Continue
    ));
    engine.deliver(slot, GoalOutcome::Completed(Payload::from_vec(vec![7])), 0, SECOND);
    match result_loop_turn(&mut engine, requested(&request, 6), 0) {
        LoopStep::Answer { responder, payload, signal } => {
            assert_eq!((responder, signal), (6, None));
            let (status, body) = unwrap_result_outcome(payload.as_slice()).expect("framed");
            assert_eq!(status, ResultStatus::Completed);
            assert_eq!(body, &[7]);
        }
        _ => panic!("a stored outcome is served"),
    }
    match result_loop_turn(&mut engine, requested(&Payload::from_vec(vec![9]), 7), 0) {
        LoopStep::Refuse { responder, reason } => {
            assert_eq!(responder, 7);
            assert_eq!(reason, "malformed result request payload");
        }
        _ => panic!("a request without a goal id is refused"),
    }
    for event in [LoopEvent::Stopped, LoopEvent::Closed, LoopEvent::Failed] {
        assert!(matches!(result_loop_turn(&mut engine, event, 0), LoopStep::End));
    }
}

#[test]
fn tombstones_forget_the_oldest() {
    let mut tombstones = ExpiredTombstones::new(2);
    tombstones.insert("a".to_string());
    tombstones.insert("b".to_string());
    tombstones.insert("a".to_string());
    assert!(tombstones.contains("a"));
    tombstones.insert("c".to_string());
    assert!(!tombstones.contains("a"), "a repeated goal keeps its place");
    assert!(tombstones.contains("b"));
    assert!(tombstones.contains("c"));
    assert_eq!(EXPIRED_TOMBSTONE_CAP, 4096);
}

fn request(wire: Payload) -> ServiceRequestContext {
    ServiceRequestContext::new(
        Message::new("core_a".to_string(), "client".to_string(), "_".to_string(), wire),
        "request".to_string(),
        "link".to_string(),
    )
}

fn accepted(engine: &mut GoalEngine<u32>, goal_id: &str, has_feedback: bool) -> GoalContext {
    let action = ConcurrentAction::new(has_feedback);
    let wire = wrap_goal_payload(goal_id, b"do it").expect("wrap");
    let goal = action.recv_next_goal(&request(wire)).expect("a goal");
    let (context, _) = goal.accept(engine, b"ok").expect("accepted");
    context
}

#[test]
fn a_received_goal_names_its_client() {
    let action = ConcurrentAction::new(true);
    let wire = wrap_goal_payload("goal", b"do it").expect("wrap");
    let goal = action.recv_next_goal(&request(wire)).expect("a goal");
    assert_eq!(goal.goal_id(), "goal");
    assert_eq!(goal.core_node(), "core_a");
    assert_eq!(goal.instance_id(), "client");
    assert_eq!(goal.request_bytes(), b"do it");
    let reply = goal.reject(Some("busy"), b"no").expect("framed");
    assert_eq!(reply.as_slice(), b"\x00\x00\x04busyno");
}

#[test]
fn an_unsafe_goal_id_is_refused_only_where_feedback_is_published() {
    let wire = || wrap_goal_payload("a/b", b"").expect("wrap");
    assert!(matches!(
        ConcurrentAction::new(true).recv_next_goal(&request(wire())),
        Err(Error::InternalEncodingError { .. })
    ));
    assert!(ConcurrentAction::new(false).recv_next_goal(&request(wire())).is_ok());
}

#[test]
fn a_goal_context_drives_its_goal_once() {
    let mut engine: GoalEngine<u32> = GoalEngine::new();
    let context = accepted(&mut engine, "goal", true);
    assert_eq!(context.goal_id(), "goal");
    assert_eq!(context.request_bytes(), b"do it");
    assert!(engine.is_pending(context.slot()));
    assert_parked(engine.poll_result("goal", 4, 0));
    let end = context.complete(&mut engine, Payload::from_vec(b"done".to_vec()), 10);
    assert!(end.end_feedback, "the first outcome ends the feedback stream");
    assert_eq!(end.delivery.expect("delivered").waiters, vec![4]);
    let again = context.complete_cancelled(&mut engine, Payload::new(), 11);
    assert!(again.delivery.is_none());
    assert!(!again.end_feedback);
    let dropped = context.abandon(&mut engine, 12);
    assert!(dropped.delivery.is_none());
    assert_eq!(
        outcome(engine.poll_result("goal", 5, RESULT_RETENTION_GRACE + 9)),
        (5, ResultStatus::Completed, b"done".to_vec())
    );
    assert_eq!(
        outcome(engine.poll_result("goal", 5, RESULT_RETENTION_GRACE + 10)).1,
        ResultStatus::Expired
    );
}

#[test]
fn a_dropped_goal_is_abandoned() {
    let mut engine: GoalEngine<u32> = GoalEngine::new();
    let context = accepted(&mut engine, "goal", false);
    let end = context.abandon(&mut engine, 0);
    assert!(end.delivery.is_some());
    assert!(!end.end_feedback, "there is no stream to end");
    assert_eq!(outcome(engine.poll_result("goal", 1, 0)), (1, ResultStatus::Abandoned, vec![]));
}

#[test]
fn a_goal_whose_acceptance_was_not_sent_is_withdrawn() {
    let mut engine: GoalEngine<u32> = GoalEngine::new();
    let context = accepted(&mut engine, "goal", true);
    context.withdraw(&mut engine);
    assert!(!engine.is_routable("goal"));
}

#[test]
fn retention_can_be_set() {
    let mut engine: GoalEngine<u32> = GoalEngine::new();
    let action = ConcurrentAction::new(false).with_result_retention_grace(3);
    let wire = wrap_goal_payload("goal", b"").expect("wrap");
    let goal = action.recv_next_goal(&request(wire)).expect("a goal");
    let (context, reply) = goal.accept(&mut engine, b"r").expect("accepted");
    assert_eq!(reply.as_slice(), &[1, 0, 0, b'r']);
    context.complete(&mut engine, Payload::new(), 10);
    assert_eq!(outcome(engine.poll_result("goal", 1, 12)).1, ResultStatus::Completed);
    assert_eq!(outcome(engine.poll_result("goal", 1, 13)).1, ResultStatus::Expired);
}

#[test]
fn feedback_without_a_topic_is_an_error() {
    let mut engine: GoalEngine<u32> = GoalEngine::new();
    let payload = || NonEmptyPayload::try_new(Payload::from_vec(vec![1])).expect("not empty");
    let without = accepted(&mut engine, "a", false);
    match without.publish_feedback(payload()) {
        Err(Error::Io(reason)) => {
            assert_eq!(reason, "publish_feedback called on an action with no feedback topic")
        }
        _ => panic!("expected an error"),
    }
    let with = accepted(&mut engine, "b", true);
    assert_eq!(with.publish_feedback(payload()).expect("published").as_slice(), &[1]);
}

#[test]
fn a_waiting_request_outlives_what_happens_to_other_goals() {
    let mut engine: GoalEngine<u32> = GoalEngine::new();
    let (slot, _) = engine.accept("goal", b"").expect("accept");
    assert_parked(engine.poll_result("goal", 1, 0));
    assert_parked(engine.poll_result("early", 2, 0));

    let (other, _) = engine.accept("other", b"").expect("accept");
    engine.cancel("goal");
    engine.cancel("other");
    engine.deliver(other, GoalOutcome::Abandoned, 0, SECOND);
    engine.sweep_once(&Vec::new(), 10 * SECOND);
    let (displacing, _) = engine.accept("goal", b"").expect("accept");
    engine.unregister("goal", displacing);
    assert_eq!(engine.parked_count(), 1, "the early request waits as well");

    let delivery = engine
        .deliver(slot, GoalOutcome::Completed(Payload::from_vec(vec![4])), 11 * SECOND, SECOND)
        .expect("the first outcome");
    assert_eq!(delivery.waiters, vec![1]);
    let (early, _) = engine.accept("early", b"").expect("accept");
    assert_eq!(engine.parked_count(), 0);
    let delivery =
        engine.deliver(early, GoalOutcome::Abandoned, 11 * SECOND, SECOND).expect("the first outcome");
    assert_eq!(delivery.waiters, vec![2]);
}

#[test]
fn a_result_is_served_throughout_its_retention_time() {
    let mut engine: GoalEngine<u32> = GoalEngine::new();
    let (slot, _) = engine.accept("goal", b"").expect("accept");
    engine.deliver(slot, GoalOutcome::Cancelled(Payload::from_vec(vec![9])), 0, 5 * SECOND);
    for (responder, now) in [(1, 0), (2, SECOND), (3, 5 * SECOND - 1)] {
        engine.accept(&format!("other_{responder}"), b"").expect("accept");
        engine.cancel("goal");
        engine.sweep_once(&Vec::new(), now);
        assert_eq!(
            outcome(engine.poll_result("goal", responder, now)),
            (responder, ResultStatus::Cancelled, vec![9])
        );
    }
    assert_eq!(
        outcome(engine.poll_result("goal", 4, 5 * SECOND)),
        (4, ResultStatus::Expired, vec![])
    );
    engine.sweep_once(&Vec::new(), 5 * SECOND);
    assert!(engine.is_tombstoned("goal"));
    engine.sweep_once(&Vec::new(), 6 * SECOND);
    assert!(engine.is_tombstoned("goal"), "a remembered goal stays remembered");
}
