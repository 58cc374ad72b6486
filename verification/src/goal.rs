//! A goal on the server: received, then accepted or rejected, then driven to its
//! outcome.
use crate::action_server::{read_goal_request, reject_goal};
use crate::engine;
use crate::engine::{Delivery, GoalEngine, GoalOutcome, RESULT_RETENTION_GRACE};
use crate::envelope;
use crate::error::{ErrorView, Result};
use crate::feedback;
use crate::feedback::{publish_feedback, NonEmptyPayload};
use crate::payload;
use crate::payload::Payload;
use crate::services::ServiceRequestContext;
use crate::utf8;
use vstd::prelude::*;
use vstd::utf8::*;

verus! {

/// A goal that was received but neither accepted nor rejected yet.
pub struct PendingGoal {
    goal_id: String,
    core_node: String,
    instance_id: String,
    request: Payload,
    has_feedback: bool,
    retention: u128,
}

/// The view of a [`PendingGoal`].
pub struct PendingGoalView {
    pub goal_id: Seq<char>,
    pub core_node: Seq<char>,
    pub instance_id: Seq<char>,
    pub request: Seq<u8>,
    pub has_feedback: bool,
    pub retention: nat,
}

impl View for PendingGoal {
    type V = PendingGoalView;

    closed spec fn view(&self) -> PendingGoalView {
        PendingGoalView {
            goal_id: self.goal_id@,
            core_node: self.core_node@,
            instance_id: self.instance_id@,
            request: self.request@,
            has_feedback: self.has_feedback,
            retention: self.retention as nat,
        }
    }
}

/// How an action serves its goals.
pub struct ConcurrentAction {
    has_feedback: bool,
    retention: u128,
}

/// The view of a [`ConcurrentAction`].
pub struct ActionView {
    pub has_feedback: bool,
    pub retention: nat,
}

impl View for ConcurrentAction {
    type V = ActionView;

    closed spec fn view(&self) -> ActionView {
        ActionView { has_feedback: self.has_feedback, retention: self.retention as nat }
    }
}

impl ConcurrentAction {
    /// An action that keeps results for the default time.
    pub fn new(has_feedback: bool) -> (action: Self)
        ensures
            action@ == (ActionView { has_feedback, retention: RESULT_RETENTION_GRACE as nat }),
    {
        ConcurrentAction { has_feedback, retention: RESULT_RETENTION_GRACE }
    }

    /// The action with another retention time for results.
    pub fn with_result_retention_grace(self, grace: u128) -> (action: Self)
        ensures
            action@ == (ActionView { retention: grace as nat, ..self@ }),
    {
        ConcurrentAction { has_feedback: self.has_feedback, retention: grace }
    }

    /// Reads a goal request. A request whose envelope cannot be read, or whose goal
    /// id could leave its feedback topic's scope, is refused.
    pub fn recv_next_goal(&self, context: &ServiceRequestContext) -> (goal: Result<PendingGoal>)
        ensures
            match envelope::goal_envelope(context@.message.payload) {
                Err(reason) => goal matches Err(error) && error@ == envelope::goal_error(reason),
                Ok(parts) => if self@.has_feedback && !envelope::safe_goal_id(parts.0) {
                    goal matches Err(error) && error@ == envelope::goal_error(
                        "goal_id contains unsafe characters: "@ + utf8::quoted(parts.0),
                    )
                } else {
                    goal matches Ok(goal) && goal@ == (PendingGoalView {
                        goal_id: parts.0,
                        core_node: context@.message.core_node,
                        instance_id: context@.message.instance_id,
                        request: parts.1,
                        has_feedback: self@.has_feedback,
                        retention: self@.retention,
                    })
                },
            },
    {
        let message = context.message();
        match read_goal_request(message.payload(), self.has_feedback) {
            Err(error) => Err(error),
            Ok(read) => Ok(
                PendingGoal {
                    goal_id: read.goal_id,
                    core_node: message.core_node().to_owned(),
                    instance_id: message.instance_id().to_owned(),
                    request: read.request,
                    has_feedback: self.has_feedback,
                    retention: self.retention,
                },
            ),
        }
    }
}

/// A goal that was accepted: its worker's handle.
pub struct GoalContext {
    goal_id: String,
    request: Payload,
    slot: u64,
    has_feedback: bool,
    retention: u128,
}

/// The view of a [`GoalContext`].
pub struct GoalContextView {
    pub goal_id: Seq<char>,
    pub request: Seq<u8>,
    pub slot: u64,
    pub has_feedback: bool,
    pub retention: nat,
}

impl View for GoalContext {
    type V = GoalContextView;

    closed spec fn view(&self) -> GoalContextView {
        GoalContextView {
            goal_id: self.goal_id@,
            request: self.request@,
            slot: self.slot,
            has_feedback: self.has_feedback,
            retention: self.retention as nat,
        }
    }
}

impl PendingGoal {
    /// The goal's id, which its client made.
    pub fn goal_id(&self) -> (goal_id: &str)
        ensures
            goal_id@ == self@.goal_id,
    {
        self.goal_id.as_str()
    }

    /// The core node of the client.
    pub fn core_node(&self) -> (core_node: &str)
        ensures
            core_node@ == self@.core_node,
    {
        self.core_node.as_str()
    }

    /// The instance id of the client.
    pub fn instance_id(&self) -> (instance_id: &str)
        ensures
            instance_id@ == self@.instance_id,
    {
        self.instance_id.as_str()
    }

    /// The goal request without its envelope.
    pub fn request_bytes(&self) -> (request: &[u8])
        ensures
            request@ == self@.request,
    {
        self.request.as_slice()
    }

    /// Accepts the goal. It can be cancelled and asked for its result from here on,
    /// that is before the client learns that it was accepted. The payload is the
    /// reply to send; should that fail, the goal is withdrawn with
    /// [`GoalContext::withdraw`].
    pub fn accept<R>(self, engine: &mut GoalEngine<R>, response: &[u8]) -> (accepted: Result<
        (GoalContext, Payload),
    >)
        requires
            old(engine).wf(),
            old(engine)@.next_slot < u64::MAX,
            payload::fits_allocation(3 + response@.len()),
        ensures
            final(engine).wf(),
            final(engine)@ == engine::accepted(old(engine)@, self@.goal_id),
            accepted matches Ok(parts) && parts.0@ == (GoalContextView {
                goal_id: self@.goal_id,
                request: self@.request,
                slot: old(engine)@.next_slot as u64,
                has_feedback: self@.has_feedback,
                retention: self@.retention,
            }) && parts.1@ == envelope::ack_wire(true, Seq::empty(), response@),
    {
        match engine.accept(self.goal_id.as_str(), response) {
            Err(error) => Err(error),
            Ok((slot, reply)) => Ok(
                (
                    GoalContext {
                        goal_id: self.goal_id,
                        request: self.request,
                        slot,
                        has_feedback: self.has_feedback,
                        retention: self.retention,
                    },
                    reply,
                ),
            ),
        }
    }

    /// Rejects the goal. The payload is the reply to send; nothing is registered.
    pub fn reject(self, reason: Option<&str>, response: &[u8]) -> (reply: Result<Payload>)
        requires
            encode_utf8(envelope::reason_text(reason)).len() <= envelope::MAX_REASON_BYTES
                ==> payload::fits_allocation(
                3 + encode_utf8(envelope::reason_text(reason)).len() + response@.len(),
            ),
        ensures
            match reply {
                Ok(wire) => encode_utf8(envelope::reason_text(reason)).len()
                    <= envelope::MAX_REASON_BYTES && wire@ == envelope::ack_wire(
                    false,
                    envelope::reason_text(reason),
                    response@,
                ),
                Err(error) => encode_utf8(envelope::reason_text(reason)).len()
                    > envelope::MAX_REASON_BYTES && error@ == envelope::ack_error(
                    envelope::reason_refusal(envelope::reason_text(reason)),
                ),
            },
    {
        reject_goal(reason, response)
    }
}

/// What a delivered outcome calls for.
pub struct GoalEnd<R> {
    /// The requests to answer, and with what. Absent when the goal had ended
    /// before.
    pub delivery: Option<Delivery<R>>,
    /// Whether the goal's feedback stream is to be ended.
    pub end_feedback: bool,
}

/// What delivering an outcome for the goal `context` at `now` does to the engine
/// and calls for: the first outcome wakes every waiting request and ends the
/// feedback stream, later ones do nothing.
pub open spec fn ended<R>(
    before: engine::EngineView<R>,
    after: engine::EngineView<R>,
    context: GoalContextView,
    status: envelope::ResultStatus,
    body: Seq<u8>,
    now: nat,
    end: GoalEnd<R>,
) -> bool {
    let expected = engine::delivered(before, context.slot, status, body, now + context.retention);
    &&& after == expected.0
    &&& match end.delivery {
        Some(delivery) => expected.1 == Some(delivery.waiters@) && delivery.reply@
            == envelope::result_wire(status, body),
        None => expected.1 is None,
    }
    &&& end.end_feedback == (expected.1 is Some && context.has_feedback)
}

impl GoalContext {
    /// The goal's id.
    pub fn goal_id(&self) -> (goal_id: &str)
        ensures
            goal_id@ == self@.goal_id,
    {
        self.goal_id.as_str()
    }

    /// The goal request without its envelope.
    pub fn request_bytes(&self) -> (request: &[u8])
        ensures
            request@ == self@.request,
    {
        self.request.as_slice()
    }

    /// The number of the goal's slot in the engine.
    pub fn slot(&self) -> (slot: u64)
        ensures
            slot == self@.slot,
    {
        self.slot
    }

    /// Whether a cancel was requested for this goal. Once it was, the answer is the
    /// same for as long as this context lives.
    pub fn is_cancelled<R>(&self, engine: &GoalEngine<R>) -> (cancelled: bool)
        ensures
            cancelled == engine@.signalled.contains(self@.slot),
    {
        engine.is_cancelled(self.slot)
    }

    /// The payload that publishes `feedback` on this goal's stream.
    pub fn publish_feedback(&self, feedback: NonEmptyPayload) -> (published: Result<Payload>)
        ensures
            if self@.has_feedback {
                published matches Ok(payload) && payload@ == feedback@ && !feedback::ends_stream(
                    payload@,
                )
            } else {
                published matches Err(error) && error@ == ErrorView::Io(
                    "publish_feedback called on an action with no feedback topic"@,
                )
            },
    {
        publish_feedback(self.has_feedback, feedback)
    }

    fn deliver<R>(&self, engine: &mut GoalEngine<R>, outcome: GoalOutcome, now: u128) -> (end:
        GoalEnd<R>)
        requires
            old(engine).wf(),
            now + self@.retention <= u128::MAX,
            payload::fits_allocation(1 + outcome.spec_body().len()),
        ensures
            final(engine).wf(),
            ended(
                old(engine)@,
                final(engine)@,
                self@,
                outcome.spec_status(),
                outcome.spec_body(),
                now as nat,
                end,
            ),
    {
        let delivery = engine.deliver(self.slot, outcome, now, self.retention);
        let end_feedback: bool = delivery.is_some() && self.has_feedback;
        GoalEnd { delivery, end_feedback }
    }

    /// Delivers the goal's result.
    pub fn complete<R>(&self, engine: &mut GoalEngine<R>, result: Payload, now: u128) -> (end: GoalEnd<
        R,
    >)
        requires
            old(engine).wf(),
            now + self@.retention <= u128::MAX,
            payload::fits_allocation(1 + result@.len()),
        ensures
            final(engine).wf(),
            ended(
                old(engine)@,
                final(engine)@,
                self@,
                envelope::ResultStatus::Completed,
                result@,
                now as nat,
                end,
            ),
    {
        self.deliver(engine, GoalOutcome::Completed(result), now)
    }

    /// Delivers the goal's result after a cancel.
    pub fn complete_cancelled<R>(
        &self,
        engine: &mut GoalEngine<R>,
        result: Payload,
        now: u128,
    ) -> (end: GoalEnd<R>)
        requires
            old(engine).wf(),
            now + self@.retention <= u128::MAX,
            payload::fits_allocation(1 + result@.len()),
        ensures
            final(engine).wf(),
            ended(
                old(engine)@,
                final(engine)@,
                self@,
                envelope::ResultStatus::Cancelled,
                result@,
                now as nat,
                end,
            ),
    {
        self.deliver(engine, GoalOutcome::Cancelled(result), now)
    }

    /// Lets the goal go. A worker that ends without an outcome thereby gives it up,
    /// so that nobody waits for it in vain; after an outcome nothing is delivered.
    pub fn abandon<R>(self, engine: &mut GoalEngine<R>, now: u128) -> (end: GoalEnd<R>)
        requires
            old(engine).wf(),
            now + self@.retention <= u128::MAX,
        ensures
            final(engine).wf(),
            ({
                let given_up = engine::delivered(
                    old(engine)@,
                    self@.slot,
                    envelope::ResultStatus::Abandoned,
                    Seq::empty(),
                    (now + self@.retention) as nat,
                ).0;
                &&& ended(
                    old(engine)@,
                    given_up,
                    self@,
                    envelope::ResultStatus::Abandoned,
                    Seq::empty(),
                    now as nat,
                    end,
                )
                &&& final(engine)@ == engine::released(given_up, self@.slot)
            }),
    {
        let end = self.deliver(engine, GoalOutcome::Abandoned, now);
        engine.release(self.slot);
        end
    }

    /// Withdraws a goal whose acceptance could not be sent: requests for it are no
    /// longer routed, and those that waited are dropped.
    pub fn withdraw<R>(self, engine: &mut GoalEngine<R>)
        requires
            old(engine).wf(),
            old(engine)@.slots.dom().contains(self@.slot) ==> old(engine)@.slots[self@.slot].goal_id
                == self@.goal_id,
        ensures
            final(engine).wf(),
            final(engine)@ == engine::released(
                engine::unregistered(old(engine)@, self@.goal_id, self@.slot),
                self@.slot,
            ),
    {
        engine.unregister(self.goal_id.as_str(), self.slot);
        engine.release(self.slot);
    }
}

/// A goal's feedback stream is ended exactly once: by the outcome that counts, and
/// by no later one.
pub proof fn law_feedback_ends_once<R>(
    before: engine::EngineView<R>,
    between: engine::EngineView<R>,
    after: engine::EngineView<R>,
    context: GoalContextView,
    status: envelope::ResultStatus,
    body: Seq<u8>,
    now: nat,
    first: GoalEnd<R>,
    later_status: envelope::ResultStatus,
    later_body: Seq<u8>,
    later_now: nat,
    second: GoalEnd<R>,
)
    requires
        ended(before, between, context, status, body, now, first),
        ended(between, after, context, later_status, later_body, later_now, second),
    ensures
        !second.end_feedback,
        second.delivery is None,
        after == between,
        first.end_feedback <==> context.has_feedback && before.slots.dom().contains(context.slot)
            && before.slots[context.slot].state is Pending,
{
}

} // verus!
