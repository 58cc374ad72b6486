//! What an action server does with each request of its clients.
use crate::cancel_ack;
use crate::cancel_ack::{encode_cancel_ack, CancelState};
use crate::engine;
use crate::engine::{ActView, CancelAct, GoalEngine, ResultAct};
use crate::envelope;
use crate::envelope::{
    feedback_request, goal_id_from_request, split_goal_envelope, wrap_goal_ack,
};
use crate::error::Result;
use crate::payload;
use crate::payload::Payload;
use crate::utf8;
use vstd::prelude::*;
use vstd::string::*;

verus! {

/// What the cancel service answers.
pub enum CancelReply {
    /// The request names no goal.
    Refused(String),
    /// The typed acknowledgement, and the slot whose worker is to be signalled.
    Answered { payload: Payload, signal: Option<u64> },
}

/// Handles one request on the cancel service.
pub fn handle_cancel_request<R>(engine: &mut GoalEngine<R>, request: &[u8]) -> (reply: CancelReply)
    requires
        old(engine).wf(),
    ensures
        final(engine).wf(),
        match envelope::goal_envelope(request@) {
            Err(_) => final(engine)@ == old(engine)@ && (reply matches CancelReply::Refused(reason)
                && reason@ == "malformed cancel request payload"@),
            Ok(parts) => {
                let expected = engine::cancelled(old(engine)@, parts.0);
                &&& final(engine)@ == expected.0
                &&& reply matches CancelReply::Answered { payload, signal } && payload@
                    == cancel_ack::cancel_ack_wire(expected.1) && signal == (if expected.1
                    == CancelState::Signalled {
                    Some(old(engine)@.registry[parts.0])
                } else {
                    None
                })
            },
        },
{
    match goal_id_from_request(request) {
        Err(_) => CancelReply::Refused("malformed cancel request payload".to_owned()),
        Ok(goal_id) => {
            let act: CancelAct = engine.cancel(goal_id.as_str());
            match encode_cancel_ack(act.state) {
                Ok(payload) => CancelReply::Answered { payload, signal: act.signal },
                Err(error) => CancelReply::Refused(error.describe()),
            }
        },
    }
}

/// What the result service does with a request.
pub enum ResultReply<R> {
    /// The request names no goal.
    Refused { responder: R, reason: String },
    /// The request was routed.
    Routed(ResultAct<R>),
}

/// Handles one request on the result service. A request is never told that no
/// goal is active: it is answered with a typed outcome, or it waits for one.
pub fn handle_result_request<R>(
    engine: &mut GoalEngine<R>,
    request: &[u8],
    responder: R,
    now: u128,
) -> (reply: ResultReply<R>)
    requires
        old(engine).wf(),
        now + engine::PENDING_WAITER_MAX_PARK <= u128::MAX,
    ensures
        final(engine).wf(),
        match envelope::goal_envelope(request@) {
            Err(_) => final(engine)@ == old(engine)@ && (reply matches ResultReply::Refused {
                responder: refused,
                reason,
            } && refused == responder && reason@ == "malformed result request payload"@),
            Ok(parts) => {
                let expected = engine::polled(old(engine)@, parts.0, responder, now as nat);
                &&& final(engine)@ == expected.0
                &&& reply matches ResultReply::Routed(act) && act@ == expected.1
            },
        },
{
    match goal_id_from_request(request) {
        Err(_) => ResultReply::Refused {
            responder,
            reason: "malformed result request payload".to_owned(),
        },
        Ok(goal_id) => ResultReply::Routed(engine.poll_result(goal_id.as_str(), responder, now)),
    }
}

/// What happens to a loop that serves requests.
pub enum LoopEvent<R> {
    /// The server is told to stop.
    Stopped,
    /// A request arrived.
    Requested { request: Payload, responder: R },
    /// No further request will come.
    Closed,
    /// Receiving requests failed.
    Failed,
}

/// What a loop that serves requests does next.
pub enum LoopStep<R> {
    /// End the loop.
    End,
    /// Answer that the request names no goal, then go on.
    Refuse { responder: R, reason: String },
    /// Signal the worker of this slot, if any, answer, then go on.
    Answer { responder: R, payload: Payload, signal: Option<u64> },
    /// Go on; the request waits, or was dropped because too many wait.
    Continue,
}

/// One turn of the loop behind the cancel service.
pub fn cancel_loop_turn<R, T>(engine: &mut GoalEngine<T>, event: LoopEvent<R>) -> (step: LoopStep<R>)
    requires
        old(engine).wf(),
    ensures
        final(engine).wf(),
        match event {
            LoopEvent::Requested { request, responder } => match envelope::goal_envelope(request@) {
                Err(_) => final(engine)@ == old(engine)@ && (step matches LoopStep::Refuse {
                    responder: refused,
                    reason,
                } && refused == responder && reason@ == "malformed cancel request payload"@),
                Ok(parts) => {
                    let expected = engine::cancelled(old(engine)@, parts.0);
                    &&& final(engine)@ == expected.0
                    &&& step matches LoopStep::Answer { responder: answered, payload, signal }
                        && answered == responder && payload@ == cancel_ack::cancel_ack_wire(
                        expected.1,
                    ) && signal == (if expected.1 == CancelState::Signalled {
                        Some(old(engine)@.registry[parts.0])
                    } else {
                        None
                    })
                },
            },
            _ => final(engine)@ == old(engine)@ && step is End,
        },
{
    match event {
        LoopEvent::Requested { request, responder } => match handle_cancel_request(
            engine,
            request.as_slice(),
        ) {
            CancelReply::Refused(reason) => LoopStep::Refuse { responder, reason },
            CancelReply::Answered { payload, signal } => LoopStep::Answer {
                responder,
                payload,
                signal,
            },
        },
        _ => LoopStep::End,
    }
}

/// One turn of the loop behind the result service.
pub fn result_loop_turn<R>(engine: &mut GoalEngine<R>, event: LoopEvent<R>, now: u128) -> (step:
    LoopStep<R>)
    requires
        old(engine).wf(),
        now + engine::PENDING_WAITER_MAX_PARK <= u128::MAX,
    ensures
        final(engine).wf(),
        match event {
            LoopEvent::Requested { request, responder } => match envelope::goal_envelope(request@) {
                Err(_) => final(engine)@ == old(engine)@ && (step matches LoopStep::Refuse {
                    responder: refused,
                    reason,
                } && refused == responder && reason@ == "malformed result request payload"@),
                Ok(parts) => {
                    let expected = engine::polled(old(engine)@, parts.0, responder, now as nat);
                    &&& final(engine)@ == expected.0
                    &&& match expected.1 {
                        ActView::Reply { responder: asked, wire } => step matches LoopStep::Answer {
                            responder: answered,
                            payload,
                            signal,
                        } && answered == asked && payload@ == wire && signal is None,
                        _ => step is Continue,
                    }
                },
            },
            _ => final(engine)@ == old(engine)@ && step is End,
        },
{
    match event {
        LoopEvent::Requested { request, responder } => match handle_result_request(
            engine,
            request.as_slice(),
            responder,
            now,
        ) {
            ResultReply::Refused { responder, reason } => LoopStep::Refuse { responder, reason },
            ResultReply::Routed(ResultAct::Reply { responder, payload }) => LoopStep::Answer {
                responder,
                payload,
                signal: None,
            },
            ResultReply::Routed(_) => LoopStep::Continue,
        },
        _ => LoopStep::End,
    }
}

/// What a goal request says once its envelope is stripped.
pub struct GoalRequest {
    pub goal_id: String,
    pub request: Payload,
}

/// Reads a goal request. An action with feedback splices the goal id into the
/// feedback topic, so there the id has to be safe for that.
pub fn read_goal_request(wire: &Payload, has_feedback: bool) -> (read: Result<GoalRequest>)
    ensures
        match envelope::goal_envelope(wire@) {
            Err(reason) => read matches Err(error) && error@ == envelope::goal_error(reason),
            Ok(parts) => if has_feedback && !envelope::safe_goal_id(parts.0) {
                read matches Err(error) && error@ == envelope::goal_error(
                    "goal_id contains unsafe characters: "@ + utf8::quoted(parts.0),
                )
            } else {
                read matches Ok(goal) && goal.goal_id@ == parts.0 && goal.request@ == parts.1
            },
        },
{
    let split = if has_feedback {
        feedback_request(wire)
    } else {
        split_goal_envelope(wire)
    };
    match split {
        Err(error) => Err(error),
        Ok(parts) => Ok(GoalRequest { goal_id: parts.0, request: parts.1 }),
    }
}

/// Frames the reply to a rejected goal. The engine is left alone: a rejected goal
/// can be neither cancelled nor completed.
pub fn reject_goal(reason: Option<&str>, response: &[u8]) -> (reply: Result<Payload>)
    requires
        vstd::utf8::encode_utf8(envelope::reason_text(reason)).len() <= envelope::MAX_REASON_BYTES
            ==> payload::fits_allocation(
            3 + vstd::utf8::encode_utf8(envelope::reason_text(reason)).len() + response@.len(),
        ),
    ensures
        match reply {
            Ok(wire) => vstd::utf8::encode_utf8(envelope::reason_text(reason)).len()
                <= envelope::MAX_REASON_BYTES && wire@ == envelope::ack_wire(
                false,
                envelope::reason_text(reason),
                response@,
            ),
            Err(error) => vstd::utf8::encode_utf8(envelope::reason_text(reason)).len()
                > envelope::MAX_REASON_BYTES && error@ == envelope::ack_error(
                envelope::reason_refusal(envelope::reason_text(reason)),
            ),
        },
{
    wrap_goal_ack(false, reason, response)
}

} // verus!
