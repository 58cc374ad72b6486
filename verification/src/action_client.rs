//! The client side of actions: sending a goal, following it, cancelling it and
//! fetching its result.
use crate::envelope;
use crate::envelope::{
    generate_goal_id, split_goal_ack, unwrap_result_outcome, wrap_goal_payload, ResultStatus,
};
use crate::error::{Error, ErrorView, Result};
use crate::feedback;
use crate::feedback::{next_feedback, ActionTarget, ActionTargetView, FeedbackPoll};
use crate::liveliness;
use crate::liveliness::{ProducerGoneWatch, WatchAction, WatchEvent, WatchState};
use crate::message::{Message, MessageView};
use crate::payload;
use crate::payload::Payload;
use crate::producer::{ProducerRef, ProducerView};
use crate::services;
use crate::services::{CallPlan, ServiceMessenger, ServiceTarget};
use crate::text;
use vstd::prelude::*;
use vstd::utf8::*;

verus! {

/// The decoded reply to a goal request: whether the server admitted the goal, why
/// not, and the producer's declared response. The address is that of the
/// producer that answered.
pub struct ActionGoalReply {
    pub accepted: bool,
    pub reason: Option<String>,
    pub body: Payload,
    pub instance_id: String,
    pub core_node: String,
}

/// The view of an [`ActionGoalReply`].
pub struct GoalReplyView {
    pub accepted: bool,
    pub reason: Option<Seq<char>>,
    pub body: Seq<u8>,
    pub instance_id: Seq<char>,
    pub core_node: Seq<char>,
}

impl View for ActionGoalReply {
    type V = GoalReplyView;

    open spec fn view(&self) -> GoalReplyView {
        GoalReplyView {
            accepted: self.accepted,
            reason: crate::error::optional_text(self.reason),
            body: self.body@,
            instance_id: self.instance_id@,
            core_node: self.core_node@,
        }
    }
}

/// The decoded reply to a result request.
pub struct ActionResultReply {
    pub status: ResultStatus,
    pub body: Payload,
    pub instance_id: String,
    pub core_node: String,
}

/// The view of an [`ActionResultReply`].
pub struct ResultReplyView {
    pub status: ResultStatus,
    pub body: Seq<u8>,
    pub instance_id: Seq<char>,
    pub core_node: Seq<char>,
}

impl View for ActionResultReply {
    type V = ResultReplyView;

    open spec fn view(&self) -> ResultReplyView {
        ResultReplyView {
            status: self.status,
            body: self.body@,
            instance_id: self.instance_id@,
            core_node: self.core_node@,
        }
    }
}

/// A sent goal: whom it went to, how it was answered, and whether its producer is
/// still there.
pub struct ActionGoalHandle {
    target: ActionTarget,
    goal_id: String,
    goal_reply: ActionGoalReply,
    watch: ProducerGoneWatch,
}

/// The view of an [`ActionGoalHandle`].
pub struct GoalHandleView {
    pub target: ActionTargetView,
    pub goal_id: Seq<char>,
    pub goal_reply: GoalReplyView,
    pub watch: WatchState,
}

impl View for ActionGoalHandle {
    type V = GoalHandleView;

    closed spec fn view(&self) -> GoalHandleView {
        GoalHandleView {
            target: self.target@,
            goal_id: self.goal_id@,
            goal_reply: self.goal_reply@,
            watch: self.watch@,
        }
    }
}

impl ActionGoalHandle {
    /// Whom the goal was sent to. Wrappers copy it to cancel the goal or fetch its
    /// result without holding the handle.
    pub fn sender(&self) -> (target: &ActionTarget)
        ensures
            target@ == self@.target,
    {
        &self.target
    }

    /// The decoded goal reply.
    pub fn goal_reply(&self) -> (reply: &ActionGoalReply)
        ensures
            reply@ == self@.goal_reply,
    {
        &self.goal_reply
    }

    /// The goal's id.
    pub fn goal_id(&self) -> (goal_id: &str)
        ensures
            goal_id@ == self@.goal_id,
    {
        self.goal_id.as_str()
    }

    /// Whether the producer of this goal is confirmed gone.
    pub fn is_producer_gone(&self) -> (gone: bool)
        ensures
            gone == (self@.watch is Gone),
    {
        self.watch.is_gone()
    }

    /// What watching the producer calls for now.
    pub fn watch_action(&self) -> (action: WatchAction)
        ensures
            action == liveliness::action_in(self@.watch),
    {
        self.watch.action()
    }

    /// Takes note of what watching the producer saw.
    pub fn on_watch_event(&mut self, event: WatchEvent)
        requires
            liveliness::expects(old(self)@.watch, event),
        ensures
            final(self)@ == (GoalHandleView {
                watch: liveliness::after(old(self)@.watch, event),
                ..old(self)@
            }),
    {
        self.watch.on_event(event);
    }

    /// The next feedback of this goal, if there is any yet.
    pub fn try_next_feedback(&self, poll: FeedbackPoll) -> (next: Result<Option<Message>>)
        ensures
            match poll {
                FeedbackPoll::Received(message) => if feedback::ends_stream(message@.payload) {
                    next matches Err(error) && error@ == ErrorView::ActionFeedbackChannelClosed
                } else {
                    next == Ok::<Option<Message>, Error>(Some(message))
                },
                FeedbackPoll::Empty => if self@.watch is Gone {
                    next matches Err(error) && error@ == feedback::producer_gone(self@.target)
                } else {
                    next == Ok::<Option<Message>, Error>(None)
                },
                FeedbackPoll::Disconnected => next matches Err(error) && error@
                    == ErrorView::ActionFeedbackChannelClosed,
            },
    {
        next_feedback(&self.target, poll, self.watch.is_gone())
    }
}

/// A goal that is ready to be sent.
pub struct GoalPlan {
    /// The goal's id.
    pub goal_id: String,
    /// The framed goal request.
    pub wire: Payload,
    /// How the producer is found.
    pub call: CallPlan,
}

/// How the producer of a goal is found: a pinned one is addressed directly, any
/// other is discovered, within the discovery time or the goal's budget, whichever
/// is shorter.
pub open spec fn goal_call(target: Option<ProducerView>, goal_timeout: nat, call: CallPlan) -> bool {
    match target {
        Some(producer) => call matches CallPlan::Pinned(resolved) && resolved@ == producer,
        None => call matches CallPlan::Discover { scope, timeout } && scope@
            == (services::WireTargetView { core_node: None, instance_id: None }) && timeout
            == services::shorter(goal_timeout, services::DISCOVERY_TIMEOUT as nat),
    }
}

/// The view of an optional producer.
pub open spec fn optional_producer(producer: Option<&ProducerRef>) -> Option<ProducerView> {
    match producer {
        Some(producer) => Some(producer@),
        None => None,
    }
}

/// What a result request leads to.
pub enum ResultStep {
    /// The result is there.
    Reply(ActionResultReply),
    /// The request failed for good.
    Failed(Error),
    /// The request got no answer: probe the producer, then decide about this
    /// error.
    ProbeProducer(Error),
}

/// How a result request begins.
pub enum ResultStart {
    /// The result is known without asking.
    Reply(ActionResultReply),
    /// Send this request.
    Poll(Payload),
}

/// The result of a goal whose producer is gone: what it retained died with it.
pub open spec fn abandoned(target: ActionTargetView) -> ResultReplyView {
    ResultReplyView {
        status: ResultStatus::Abandoned,
        body: Seq::empty(),
        instance_id: match target.producer {
            Some(producer) => producer.instance_id,
            None => Seq::empty(),
        },
        core_node: match target.producer {
            Some(producer) => producer.core_node,
            None => Seq::empty(),
        },
    }
}

/// The result of a goal whose producer is gone.
pub fn abandoned_reply(target: &ActionTarget) -> (reply: ActionResultReply)
    ensures
        reply@ == abandoned(target@),
{
    match &target.producer {
        Some(producer) => ActionResultReply {
            status: ResultStatus::Abandoned,
            body: Payload::new(),
            instance_id: producer.instance_id.clone(),
            core_node: producer.core_node.clone(),
        },
        None => {
            let reply = ActionResultReply {
                status: ResultStatus::Abandoned,
                body: Payload::new(),
                instance_id: "".to_owned(),
                core_node: "".to_owned(),
            };
            proof {
                reveal_strlit("");
                assert(""@ =~= Seq::<char>::empty());
            }
            reply
        },
    }
}

/// The error that a failed result request is reported as: the two ways of getting
/// no answer name the action, any other error stays.
pub open spec fn result_failure(error: ErrorView, action_name: Seq<char>) -> ErrorView {
    match error {
        ErrorView::ServiceTimeout { instance_id, .. } => ErrorView::ActionResultTimeout {
            instance_id,
            action_name,
        },
        ErrorView::ServiceUnreachable { instance_id, .. } => ErrorView::ActionResultUnreachable {
            instance_id,
            action_name,
        },
        other => other,
    }
}

/// Whether a failed result request got no answer, so that the producer may be
/// gone.
pub open spec fn got_no_answer(error: ErrorView) -> bool {
    error is ActionResultTimeout || error is ActionResultUnreachable
}

/// What the reply to a result request decodes to.
pub open spec fn result_reply(message: MessageView, reply: Result<ActionResultReply>) -> bool {
    match envelope::result_refusal(message.payload) {
        Some(reason) => reply matches Err(error) && error@ == envelope::outcome_error(reason),
        None => reply matches Ok(reply) && reply.status.tag() == message.payload[0] && reply.body@
            == message.payload.skip(1) && reply.instance_id@ == message.instance_id
            && reply.core_node@ == message.core_node,
    }
}

/// The action operations of a node's clients.
pub struct ActionMessenger {}

impl ActionMessenger {
    /// Prepares the goal `goal_id` with the payload `user_payload`.
    pub fn prepare_goal(
        goal_id: &str,
        target: Option<&ProducerRef>,
        user_payload: &[u8],
        goal_timeout: u128,
    ) -> (plan: Result<GoalPlan>)
        requires
            envelope::wrappable_goal_id(goal_id@) ==> payload::fits_allocation(
                1 + encode_utf8(goal_id@).len() + user_payload@.len(),
            ),
        ensures
            match plan {
                Ok(plan) => envelope::wrappable_goal_id(goal_id@) && plan.goal_id@ == goal_id@
                    && plan.wire@ == envelope::goal_wire(goal_id@, user_payload@) && goal_call(
                    optional_producer(target),
                    goal_timeout as nat,
                    plan.call,
                ),
                Err(error) => !envelope::wrappable_goal_id(goal_id@) && error@
                    == envelope::goal_error(envelope::goal_id_refusal(goal_id@)),
            },
    {
        match wrap_goal_payload(goal_id, user_payload) {
            Err(error) => Err(error),
            Ok(wire) => {
                let service_target = match target {
                    Some(producer) => ServiceTarget::Producer(producer),
                    None => ServiceTarget::Any,
                };
                let call = ServiceMessenger::plan_poll(service_target, Some(goal_timeout));
                Ok(GoalPlan { goal_id: goal_id.to_owned(), wire, call })
            },
        }
    }

    /// Prepares a goal under a fresh id.
    pub fn send_goal(target: Option<&ProducerRef>, user_payload: &[u8], goal_timeout: u128) -> (plan:
        Result<GoalPlan>)
        requires
            payload::fits_allocation(17 + user_payload@.len()),
        ensures
            plan matches Ok(plan) && plan.goal_id@.len() == 16 && (forall|i: int|
                0 <= i < 16 ==> text::is_hex_digit(#[trigger] plan.goal_id@[i])) && plan.wire@
                == envelope::goal_wire(plan.goal_id@, user_payload@) && goal_call(
                optional_producer(target),
                goal_timeout as nat,
                plan.call,
            ),
    {
        let goal_id = generate_goal_id();
        Self::prepare_goal(goal_id.as_str(), target, user_payload, goal_timeout)
    }

    /// The time left for the goal request once its producer is known. Discovery
    /// counts against the goal's single budget.
    pub fn goal_budget(
        goal_timeout: u128,
        elapsed: u128,
        resolved: &ProducerRef,
        action_name: &str,
    ) -> (budget: Result<u128>)
        ensures
            if services::time_left(goal_timeout as nat, elapsed as nat) == 0 {
                budget matches Err(error) && error@ == (ErrorView::ServiceTimeout {
                    instance_id: Some(resolved@.instance_id),
                    service_name: action_name@,
                })
            } else {
                budget matches Ok(left) && left == services::time_left(
                    goal_timeout as nat,
                    elapsed as nat,
                )
            },
    {
        match ServiceMessenger::poll_budget(Some(goal_timeout), elapsed, resolved, action_name) {
            Err(error) => Err(error),
            Ok(Some(left)) => Ok(left),
            Ok(None) => Ok(goal_timeout),
        }
    }

    /// Decodes the reply to a goal request into a handle on the goal. The handle
    /// takes over `watch`, which has been on the producer since before the request.
    pub fn goal_answered(
        goal_id: &str,
        action_name: &str,
        resolved: &ProducerRef,
        response: &Message,
        watch: ProducerGoneWatch,
    ) -> (handle: Result<ActionGoalHandle>)
        ensures
            match envelope::ack_envelope(response@.payload) {
                Err(reason) => handle matches Err(error) && error@ == envelope::ack_error(reason),
                Ok(parts) => handle matches Ok(handle) && handle@ == (GoalHandleView {
                    target: ActionTargetView {
                        action_name: action_name@,
                        producer: Some(resolved@),
                    },
                    goal_id: goal_id@,
                    goal_reply: GoalReplyView {
                        accepted: parts.0,
                        reason: parts.1,
                        body: parts.2,
                        instance_id: response@.instance_id,
                        core_node: response@.core_node,
                    },
                    watch: watch@,
                }),
            },
    {
        match split_goal_ack(response.payload()) {
            Err(error) => Err(error),
            Ok((accepted, reason, body)) => Ok(
                ActionGoalHandle {
                    target: ActionTarget {
                        action_name: action_name.to_owned(),
                        producer: Some(resolved.clone()),
                    },
                    goal_id: goal_id.to_owned(),
                    goal_reply: ActionGoalReply {
                        accepted,
                        reason,
                        body,
                        instance_id: response.instance_id().to_owned(),
                        core_node: response.core_node().to_owned(),
                    },
                    watch,
                },
            ),
        }
    }

    /// The request that cancels the goal `goal_id`, and likewise the request for
    /// its result: the goal's envelope with an empty body.
    pub fn cancel_with_sender(goal_id: &str) -> (request: Result<Payload>)
        ensures
            match request {
                Ok(wire) => envelope::wrappable_goal_id(goal_id@) && wire@ == envelope::goal_wire(
                    goal_id@,
                    Seq::empty(),
                ),
                Err(error) => !envelope::wrappable_goal_id(goal_id@) && error@
                    == envelope::goal_error(envelope::goal_id_refusal(goal_id@)),
            },
    {
        let nothing = Payload::new();
        wrap_goal_payload(goal_id, nothing.as_slice())
    }

    /// The request that cancels the goal of `handle`.
    pub fn cancel_goal(handle: &ActionGoalHandle) -> (request: Result<Payload>)
        ensures
            match request {
                Ok(wire) => envelope::wrappable_goal_id(handle@.goal_id) && wire@
                    == envelope::goal_wire(handle@.goal_id, Seq::empty()),
                Err(error) => !envelope::wrappable_goal_id(handle@.goal_id) && error@
                    == envelope::goal_error(envelope::goal_id_refusal(handle@.goal_id)),
            },
    {
        Self::cancel_with_sender(handle.goal_id())
    }

    /// Begins fetching the result of the goal of `handle`. Nobody is asked when the
    /// producer is already confirmed gone.
    pub fn request_result(handle: &ActionGoalHandle) -> (start: Result<ResultStart>)
        ensures
            if handle@.watch is Gone {
                start matches Ok(ResultStart::Reply(reply)) && reply@ == abandoned(handle@.target)
            } else if envelope::wrappable_goal_id(handle@.goal_id) {
                start matches Ok(ResultStart::Poll(wire)) && wire@ == envelope::goal_wire(
                    handle@.goal_id,
                    Seq::empty(),
                )
            } else {
                start matches Err(error) && error@ == envelope::goal_error(
                    envelope::goal_id_refusal(handle@.goal_id),
                )
            },
    {
        if handle.is_producer_gone() {
            return Ok(ResultStart::Reply(abandoned_reply(handle.sender())));
        }
        match Self::cancel_with_sender(handle.goal_id()) {
            Ok(wire) => Ok(ResultStart::Poll(wire)),
            Err(error) => Err(error),
        }
    }

    /// Reports an error of a result request in terms of the action.
    pub fn map_result_error(error: Error, action_name: &str) -> (mapped: Error)
        ensures
            mapped@ == result_failure(error@, action_name@),
    {
        match error {
            Error::ServiceTimeout { instance_id, service_name: _ } => Error::ActionResultTimeout {
                instance_id,
                action_name: action_name.to_owned(),
            },
            Error::ServiceUnreachable { instance_id, service_name: _ } => {
                Error::ActionResultUnreachable { instance_id, action_name: action_name.to_owned() }
            },
            other => other,
        }
    }

    /// Decodes the reply to a result request.
    pub fn read_result(message: &Message) -> (reply: Result<ActionResultReply>)
        ensures
            result_reply(message@, reply),
    {
        let wire = message.payload();
        match unwrap_result_outcome(wire.as_slice()) {
            Err(error) => Err(error),
            Ok((status, _)) => Ok(
                ActionResultReply {
                    status,
                    body: wire.slice_from(1),
                    instance_id: message.instance_id().to_owned(),
                    core_node: message.core_node().to_owned(),
                },
            ),
        }
    }

    /// Decides about the outcome of a result request. A request without an answer
    /// calls for a look at the producer before it fails.
    pub fn on_result_outcome(target: &ActionTarget, outcome: Result<Message>) -> (step: ResultStep)
        ensures
            match outcome {
                Ok(message) => match step {
                    ResultStep::Reply(reply) => result_reply(message@, Ok(reply)),
                    ResultStep::Failed(error) => result_reply(message@, Err(error)),
                    ResultStep::ProbeProducer(_) => false,
                },
                Err(error) => {
                    let failure = result_failure(error@, target@.action_name);
                    if got_no_answer(failure) {
                        step matches ResultStep::ProbeProducer(kept) && kept@ == failure
                    } else {
                        step matches ResultStep::Failed(kept) && kept@ == failure
                    }
                },
            },
    {
        match outcome {
            Ok(message) => match Self::read_result(&message) {
                Ok(reply) => ResultStep::Reply(reply),
                Err(error) => ResultStep::Failed(error),
            },
            Err(error) => {
                let mapped = Self::map_result_error(error, target.action_name.as_str());
                let unanswered: bool = match &mapped {
                    Error::ActionResultTimeout { .. } => true,
                    Error::ActionResultUnreachable { .. } => true,
                    _ => false,
                };
                if unanswered {
                    ResultStep::ProbeProducer(mapped)
                } else {
                    ResultStep::Failed(mapped)
                }
            },
        }
    }

    /// Decides about a result request without an answer once its producer was
    /// probed. Only a producer that is confirmed absent makes the goal abandoned; a
    /// probe that failed decides nothing.
    pub fn on_producer_probed(target: &ActionTarget, error: Error, alive: Result<bool>) -> (reply:
        Result<ActionResultReply>)
        ensures
            match alive {
                Ok(false) => reply matches Ok(reply) && reply@ == abandoned(target@),
                _ => reply == Err::<ActionResultReply, Error>(error),
            },
    {
        match alive {
            Ok(false) => Ok(abandoned_reply(target)),
            _ => Err(error),
        }
    }
}

/// A client reads back the outcome that the server recorded: the reply made of a
/// status and a body decodes to them.
pub proof fn law_client_reads_the_outcome(
    message: MessageView,
    status: ResultStatus,
    body: Seq<u8>,
    reply: Result<ActionResultReply>,
)
    requires
        message.payload == envelope::result_wire(status, body),
        result_reply(message, reply),
    ensures
        reply matches Ok(reply) && reply@ == (ResultReplyView {
            status,
            body,
            instance_id: message.instance_id,
            core_node: message.core_node,
        }),
{
    envelope::law_result_round_trip(status, body, status, body);
    assert(message.payload[0] == status.tag());
    assert(message.payload.skip(1) =~= body);
}

/// A failed result request keeps the instance that it was about, and no answer
/// at all is told apart from an error of the service.
pub proof fn law_result_failure_keeps_the_instance(error: ErrorView, action_name: Seq<char>)
    ensures
        error matches ErrorView::ServiceTimeout { instance_id, .. } ==> result_failure(
            error,
            action_name,
        ) == (ErrorView::ActionResultTimeout { instance_id, action_name }),
        error matches ErrorView::ServiceUnreachable { instance_id, .. } ==> result_failure(
            error,
            action_name,
        ) == (ErrorView::ActionResultUnreachable { instance_id, action_name }),
        error is ServiceError ==> !got_no_answer(result_failure(error, action_name)),
{
}

/// A goal for a known producer goes to that producer at once. Any other goal goes to
/// whichever producer is found first, which may take two seconds or the goal's whole
/// time, whichever is less.
pub proof fn law_goal_goes_to_its_producer(
    target: Option<ProducerView>,
    goal_timeout: nat,
    call: CallPlan,
)
    requires
        goal_call(target, goal_timeout, call),
    ensures
        match call {
            CallPlan::Pinned(producer) => target matches Some(wanted) && producer.core_node@
                == wanted.core_node && producer.instance_id@ == wanted.instance_id,
            CallPlan::Discover { scope, timeout } => target is None && scope.core_node is None
                && scope.instance_id is None && timeout <= goal_timeout && timeout <= 2_000_000_000 && (
            timeout == goal_timeout || timeout == 2_000_000_000),
        },
{
}

/// What a failed result request means: a timeout and an unreachable service become
/// those of the action's result, with the same instance; every other error stays what
/// it is. The producer is asked after only where the result got no answer.
pub proof fn law_result_failures(error: ErrorView, action_name: Seq<char>)
    ensures
        match error {
            ErrorView::ServiceTimeout { instance_id, .. } => result_failure(error, action_name)
                == (ErrorView::ActionResultTimeout { instance_id, action_name }),
            ErrorView::ServiceUnreachable { instance_id, .. } => result_failure(error, action_name)
                == (ErrorView::ActionResultUnreachable { instance_id, action_name }),
            _ => result_failure(error, action_name) == error,
        },
        got_no_answer(result_failure(error, action_name)) <==> error is ServiceTimeout || error
            is ServiceUnreachable || error is ActionResultTimeout || error is ActionResultUnreachable,
{
}

/// A goal whose producer is gone is abandoned: without a result, in the name of the
/// producer that it was sent to.
pub proof fn law_goal_of_a_lost_producer_is_abandoned(target: ActionTargetView)
    ensures
        abandoned(target).status == ResultStatus::Abandoned,
        abandoned(target).body.len() == 0,
        target.producer matches Some(producer) ==> abandoned(target).instance_id
            == producer.instance_id && abandoned(target).core_node == producer.core_node,
        target.producer is None ==> abandoned(target).instance_id.len() == 0 && abandoned(
            target,
        ).core_node.len() == 0,
{
}

/// A result reply is read as its first byte and the rest, from whoever sent it. One
/// without a first byte, or with one that is no status, is an error.
pub proof fn law_result_reply_is_read(message: MessageView, reply: Result<ActionResultReply>)
    requires
        result_reply(message, reply),
    ensures
        reply is Ok <==> message.payload.len() > 0 && message.payload[0] <= 3,
        reply matches Ok(reply) ==> reply.body@ == message.payload.skip(1) && reply.instance_id@
            == message.instance_id && reply.core_node@ == message.core_node && message.payload[0]
            == match reply.status {
            ResultStatus::Completed => 0u8,
            ResultStatus::Cancelled => 1u8,
            ResultStatus::Abandoned => 2u8,
            ResultStatus::Expired => 3u8,
        },
        reply matches Err(error) ==> error@ is InternalEncodingError,
{
}

/// Whom a goal was meant for.
pub proof fn law_optional_producer(producer: Option<&ProducerRef>)
    ensures
        producer is None <==> optional_producer(producer) is None,
        producer matches Some(some) ==> optional_producer(producer) == Some(
            ProducerView { core_node: some.core_node@, instance_id: some.instance_id@ },
        ),
{
}

/// The replies to a goal are seen as they are.
pub proof fn law_replies_are_seen_as_they_are(goal: ActionGoalReply, result: ActionResultReply)
    ensures
        goal@.accepted == goal.accepted,
        goal.reason is None <==> goal@.reason is None,
        goal.reason matches Some(reason) ==> goal@.reason == Some(reason@),
        goal@.body == goal.body@,
        goal@.instance_id == goal.instance_id@,
        goal@.core_node == goal.core_node@,
        result@.status == result.status,
        result@.body == result.body@,
        result@.instance_id == result.instance_id@,
        result@.core_node == result.core_node@,
{
}

} // verus!
