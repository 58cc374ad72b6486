//! Service calls: who is addressed, how the caller's time is spent, and what a
//! service does with each request.
use crate::error::{Error, ErrorView, Result};
use crate::message::{Message, MessageView};
use crate::payload::Payload;
use crate::producer::{ProducerRef, ProducerView};
use vstd::prelude::*;

verus! {

/// How long, in nanoseconds, discovering a producer may take.
pub const DISCOVERY_TIMEOUT: u128 = 2_000_000_000;

/// How long, in nanoseconds, a reachability probe waits for its answer.
pub const PROBE_TIMEOUT: u128 = 500_000_000;

/// How long, in nanoseconds, a call that found no producer yet waits before it
/// asks again.
pub const COLD_START_BACKOFF: u128 = 50_000_000;

/// How much of the producer's address a caller pins up front.
#[derive(Debug, Clone, Copy)]
pub enum ServiceTarget<'a> {
    /// Any producer may answer; one is discovered before the call.
    Any,
    /// Any producer of this core node may answer; one is discovered among them.
    CoreNode(&'a str),
    /// This producer answers; nothing is discovered.
    Producer(&'a ProducerRef),
}

/// The two address slots of a service request. An absent slot is a wildcard.
pub struct WireTarget {
    pub core_node: Option<String>,
    pub instance_id: Option<String>,
}

/// The view of a [`WireTarget`].
pub struct WireTargetView {
    pub core_node: Option<Seq<char>>,
    pub instance_id: Option<Seq<char>>,
}

impl View for WireTarget {
    type V = WireTargetView;

    open spec fn view(&self) -> WireTargetView {
        WireTargetView {
            core_node: crate::error::optional_text(self.core_node),
            instance_id: crate::error::optional_text(self.instance_id),
        }
    }
}

/// The address slots of a producer.
pub open spec fn pinned_to(producer: ProducerView) -> WireTargetView {
    WireTargetView {
        core_node: Some(producer.core_node),
        instance_id: Some(producer.instance_id),
    }
}

impl<'a> ServiceTarget<'a> {
    /// The address slots of this target.
    pub open spec fn slots(self) -> WireTargetView {
        match self {
            ServiceTarget::Any => WireTargetView { core_node: None, instance_id: None },
            ServiceTarget::CoreNode(core_node) => WireTargetView {
                core_node: Some(core_node@),
                instance_id: None,
            },
            ServiceTarget::Producer(producer) => pinned_to(producer@),
        }
    }

    /// The address slots of this target.
    pub fn wire_target(&self) -> (target: WireTarget)
        ensures
            target@ == self.slots(),
    {
        match self {
            ServiceTarget::Any => WireTarget { core_node: None, instance_id: None },
            ServiceTarget::CoreNode(core_node) => WireTarget {
                core_node: Some((*core_node).to_owned()),
                instance_id: None,
            },
            ServiceTarget::Producer(producer) => WireTarget {
                core_node: Some(producer.core_node.clone()),
                instance_id: Some(producer.instance_id.clone()),
            },
        }
    }
}

/// No target addresses an instance without its core node.
pub proof fn law_no_half_address(target: ServiceTarget<'_>)
    ensures
        target.slots().instance_id is Some ==> target.slots().core_node is Some,
{
}

/// How a call begins.
pub enum CallPlan {
    /// The producer is known: send the request at once.
    Pinned(ProducerRef),
    /// Find a producer in this scope first, within this time.
    Discover { scope: WireTarget, timeout: u128 },
}

/// The shorter of two durations.
pub open spec fn shorter(a: nat, b: nat) -> nat {
    if a <= b {
        a
    } else {
        b
    }
}

/// How long discovery may take for a caller with this budget.
pub open spec fn discovery_budget(response_timeout: Option<u128>) -> nat {
    match response_timeout {
        Some(total) => shorter(total as nat, DISCOVERY_TIMEOUT as nat),
        None => DISCOVERY_TIMEOUT as nat,
    }
}

fn discovery_time(response_timeout: Option<u128>) -> (timeout: u128)
    ensures
        timeout == discovery_budget(response_timeout),
{
    match response_timeout {
        Some(total) => {
            if total <= DISCOVERY_TIMEOUT {
                total
            } else {
                DISCOVERY_TIMEOUT
            }
        },
        None => DISCOVERY_TIMEOUT,
    }
}

/// What is left of a budget after some time has passed.
pub open spec fn time_left(total: nat, elapsed: nat) -> nat {
    if elapsed < total {
        (total - elapsed) as nat
    } else {
        0
    }
}

/// The service operations of a node.
pub struct ServiceMessenger {}

impl ServiceMessenger {
    /// Plans a call. A full pin is addressed directly: no probe is issued and no
    /// discovery time applies. Any other target is discovered first, within the
    /// discovery time or the caller's budget, whichever is shorter.
    pub fn plan_poll(target: ServiceTarget<'_>, response_timeout: Option<u128>) -> (plan: CallPlan)
        ensures
            match target {
                ServiceTarget::Producer(producer) => plan matches CallPlan::Pinned(resolved)
                    && resolved@ == producer@,
                _ => plan matches CallPlan::Discover { scope, timeout } && scope@ == target.slots()
                    && timeout == discovery_budget(response_timeout),
            },
    {
        match target {
            ServiceTarget::Producer(producer) => CallPlan::Pinned(producer.clone()),
            _ => CallPlan::Discover {
                scope: target.wire_target(),
                timeout: discovery_time(response_timeout),
            },
        }
    }

    /// The time left for the request itself once the producer is known. Discovery
    /// counts against the caller's single budget; a budget it used up is a
    /// timeout.
    pub fn poll_budget(
        response_timeout: Option<u128>,
        elapsed: u128,
        resolved: &ProducerRef,
        service_name: &str,
    ) -> (budget: Result<Option<u128>>)
        ensures
            budget is Ok <==> (response_timeout matches Some(total) ==> elapsed < total),
            budget matches Ok(left) ==> match response_timeout {
                Some(total) => left matches Some(left) && left == total - elapsed,
                None => left is None,
            },
            match response_timeout {
                None => budget matches Ok(left) && left is None,
                Some(total) => if time_left(total as nat, elapsed as nat) == 0 {
                    budget matches Err(error) && error@ == (ErrorView::ServiceTimeout {
                        instance_id: Some(resolved@.instance_id),
                        service_name: service_name@,
                    })
                } else {
                    budget matches Ok(left) && left matches Some(left) && left == time_left(
                        total as nat,
                        elapsed as nat,
                    )
                },
            },
    {
        match response_timeout {
            None => Ok(None),
            Some(total) => {
                if elapsed >= total {
                    Err(
                        Error::ServiceTimeout {
                            instance_id: Some(resolved.instance_id.clone()),
                            service_name: service_name.to_owned(),
                        },
                    )
                } else {
                    Ok(Some(total - elapsed))
                }
            },
        }
    }
}

/// Discovery and the request share one budget: the request never gets more than
/// the caller's budget less what discovery took, so both together stay within it.
pub proof fn law_discovery_shares_the_budget(total: u128, elapsed: nat)
    requires
        elapsed <= discovery_budget(Some(total)),
    ensures
        elapsed + time_left(total as nat, elapsed) == total,
{
}

/// What a finished service handler leaves to be sent.
pub enum HandlerOutcome {
    /// The response.
    Response(Payload),
    /// Why the handler failed.
    HandlerError(String),
}

/// What is sent for a finished handler: its payload as the response, or its error
/// text as a handler error.
pub fn handler_outcome(result: std::result::Result<Payload, String>) -> (outcome: HandlerOutcome)
    ensures
        match result {
            Ok(payload) => outcome == HandlerOutcome::Response(payload),
            Err(reason) => outcome == HandlerOutcome::HandlerError(reason),
        },
{
    match result {
        Ok(payload) => HandlerOutcome::Response(payload),
        Err(reason) => HandlerOutcome::HandlerError(reason),
    }
}

/// A request that reached its service.
pub struct ServiceRequestContext {
    message: Message,
    request_id: String,
    link_id: String,
}

/// The view of a [`ServiceRequestContext`].
pub struct RequestView {
    pub message: MessageView,
    pub request_id: Seq<char>,
    pub link_id: Seq<char>,
}

impl View for ServiceRequestContext {
    type V = RequestView;

    closed spec fn view(&self) -> RequestView {
        RequestView {
            message: self.message@,
            request_id: self.request_id@,
            link_id: self.link_id@,
        }
    }
}

impl ServiceRequestContext {
    /// The request `message` that arrived under the producer-side `link_id`.
    pub fn new(message: Message, request_id: String, link_id: String) -> (context: Self)
        ensures
            context@ == (RequestView {
                message: message@,
                request_id: request_id@,
                link_id: link_id@,
            }),
    {
        ServiceRequestContext { message, request_id, link_id }
    }

    /// What the caller sent.
    pub fn message(&self) -> (message: &Message)
        ensures
            message@ == self@.message,
    {
        &self.message
    }

    /// The request's own id.
    pub fn request_id(&self) -> (request_id: &str)
        ensures
            request_id@ == self@.request_id,
    {
        self.request_id.as_str()
    }

    /// The producer-side link id that received the request.
    pub fn link_id(&self) -> (link_id: &str)
        ensures
            link_id@ == self@.link_id,
    {
        self.link_id.as_str()
    }
}

/// What arrives at a service.
pub enum Incoming {
    /// A probe. The transport answers those, so one that gets here is dropped.
    Probe,
    /// A request, with the link id it arrived under.
    UserRequest { message: Message, link_id: String },
    /// The stream of requests closed.
    Closed,
}

/// What a service does with what arrived.
pub enum RequestStep {
    /// Drop it and wait for the next.
    Skip,
    /// Acknowledge it, then hand it to the handler.
    Acknowledge(ServiceRequestContext),
    /// No further request will come.
    Closed,
}

/// Decides about what arrived at a service.
pub fn next_request(incoming: Incoming, request_id: String) -> (step: RequestStep)
    ensures
        match incoming {
            Incoming::Probe => step is Skip,
            Incoming::Closed => step is Closed,
            Incoming::UserRequest { message, link_id } => step matches RequestStep::Acknowledge(
                context,
            ) && context@ == (RequestView {
                message: message@,
                request_id: request_id@,
                link_id: link_id@,
            }),
        },
{
    match incoming {
        Incoming::Probe => RequestStep::Skip,
        Incoming::Closed => RequestStep::Closed,
        Incoming::UserRequest { message, link_id } => RequestStep::Acknowledge(
            ServiceRequestContext::new(message, request_id, link_id),
        ),
    }
}

/// Decides about a request once its acknowledgement was attempted: one whose
/// caller could not be reached is dropped, so that a single client cannot stop
/// the service.
pub fn after_acknowledgement(context: ServiceRequestContext, sent: bool) -> (handled: Option<
    ServiceRequestContext,
>)
    ensures
        handled == (if sent {
            Some(context)
        } else {
            None
        }),
{
    if sent {
        Some(context)
    } else {
        None
    }
}

/// A service call that was issued and waits for its reply.
pub struct ServiceCall {
    instance_id: Option<String>,
    service_name: String,
    deadline: Option<u128>,
    acknowledged: bool,
}

/// The view of a [`ServiceCall`].
pub struct CallView {
    pub instance_id: Option<Seq<char>>,
    pub service_name: Seq<char>,
    pub deadline: Option<nat>,
    pub acknowledged: bool,
}

impl View for ServiceCall {
    type V = CallView;

    closed spec fn view(&self) -> CallView {
        CallView {
            instance_id: crate::error::optional_text(self.instance_id),
            service_name: self.service_name@,
            deadline: match self.deadline {
                Some(deadline) => Some(deadline as nat),
                None => None,
            },
            acknowledged: self.acknowledged,
        }
    }
}

/// The error of a call that got no reply: a timeout when the producer had
/// acknowledged the request, else the producer was unreachable.
pub open spec fn unanswered(call: CallView) -> ErrorView {
    if call.acknowledged {
        ErrorView::ServiceTimeout { instance_id: call.instance_id, service_name: call.service_name }
    } else {
        ErrorView::ServiceUnreachable {
            instance_id: call.instance_id,
            service_name: call.service_name,
        }
    }
}

/// Whether the deadline of `call` has passed at `now`.
pub open spec fn expired(call: CallView, now: nat) -> bool {
    call.deadline matches Some(deadline) && now >= deadline
}

/// What becomes of an attempt.
pub enum AttemptStep {
    /// Send the request; the transport gets this much time.
    Issue(Option<u128>),
    /// The call is over.
    Expired(Error),
}

/// A reply that ends a call.
pub enum FinalReply {
    /// The handler's response.
    Response(Message),
    /// The handler's error text.
    HandlerError(String),
}

/// What happens to a call whose reply stream closed.
pub enum ClosedStep {
    /// The call is over.
    Failed(Error),
    /// Nobody was there yet: ask again at this time.
    RetryAt(u128),
}

impl ServiceCall {
    /// A call of `service_name`, issued now, with an optional deadline.
    pub fn new(instance_id: Option<String>, service_name: String, deadline: Option<u128>) -> (call:
        Self)
        ensures
            call@ == (CallView {
                instance_id: crate::error::optional_text(instance_id),
                service_name: service_name@,
                deadline: match deadline {
                    Some(deadline) => Some(deadline as nat),
                    None => None,
                },
                acknowledged: false,
            }),
    {
        ServiceCall { instance_id, service_name, deadline, acknowledged: false }
    }

    /// The producer acknowledged the request.
    pub fn on_acknowledged(&mut self)
        ensures
            final(self)@ == (CallView { acknowledged: true, ..old(self)@ }),
    {
        self.acknowledged = true;
    }

    /// What the call makes of its reply stream at `now`. A reply in hand ends it,
    /// whether or not the deadline has passed: the producer has done the work.
    /// Without one the call waits until its deadline, if it has any.
    pub fn poll(&self, reply: Option<FinalReply>, now: u128) -> (outcome: Option<Result<Message>>)
        ensures
            outcome is None <==> reply is None && (self@.deadline matches Some(deadline) ==> now
                < deadline),
            match reply {
                Some(FinalReply::Response(message)) => outcome == Some(
                    Ok::<Message, Error>(message),
                ),
                Some(FinalReply::HandlerError(reason)) => outcome matches Some(Err(error))
                    && error@ == (ErrorView::ServiceError {
                    instance_id: self@.instance_id,
                    service_name: self@.service_name,
                    reason: reason@,
                }),
                None => if expired(self@, now as nat) {
                    outcome matches Some(Err(error)) && error@ == unanswered(self@)
                } else {
                    outcome is None
                },
            },
    {
        match reply {
            Some(FinalReply::Response(message)) => Some(Ok(message)),
            Some(FinalReply::HandlerError(reason)) => Some(
                Err(
                    Error::ServiceError {
                        instance_id: self.target(),
                        service_name: self.service_name.clone(),
                        reason,
                    },
                ),
            ),
            None => {
                if self.is_expired(now) {
                    Some(Err(self.unanswered_error()))
                } else {
                    None
                }
            },
        }
    }

    fn target(&self) -> (instance_id: Option<String>)
        ensures
            crate::error::optional_text(instance_id) == self@.instance_id,
    {
        match &self.instance_id {
            Some(instance_id) => Some(instance_id.clone()),
            None => None,
        }
    }

    /// The error of this call when no reply comes.
    fn unanswered_error(&self) -> (error: Error)
        ensures
            error@ == unanswered(self@),
    {
        if self.acknowledged {
            Error::ServiceTimeout {
                instance_id: self.target(),
                service_name: self.service_name.clone(),
            }
        } else {
            Error::ServiceUnreachable {
                instance_id: self.target(),
                service_name: self.service_name.clone(),
            }
        }
    }

    /// The reply stream closed without a reply. A bounded call that nobody
    /// acknowledged asks again after a short wait, never beyond its deadline;
    /// every other call is over.
    pub fn on_closed(&self, now: u128) -> (step: ClosedStep)
        requires
            now + COLD_START_BACKOFF <= u128::MAX,
        ensures
            match step {
                ClosedStep::RetryAt(at) => !self@.acknowledged && self@.deadline is Some && now
                    < self@.deadline->Some_0 && now < at <= self@.deadline->Some_0 && at <= now
                    + 50_000_000 && (at == now + 50_000_000 || at == self@.deadline->Some_0),
                ClosedStep::Failed(_) => self@.acknowledged || (self@.deadline matches Some(deadline)
                    ==> now >= deadline),
            },
            match self@.deadline {
                Some(deadline) => if self@.acknowledged || now >= deadline {
                    step matches ClosedStep::Failed(error) && error@ == unanswered(self@)
                } else {
                    step matches ClosedStep::RetryAt(at) && at == shorter(
                        (now + COLD_START_BACKOFF) as nat,
                        deadline,
                    )
                },
                None => step matches ClosedStep::Failed(error) && error@ == unanswered(self@),
            },
    {
        match self.deadline {
            None => ClosedStep::Failed(self.unanswered_error()),
            Some(deadline) => {
                if self.acknowledged || now >= deadline {
                    ClosedStep::Failed(self.unanswered_error())
                } else {
                    let next: u128 = now + COLD_START_BACKOFF;
                    ClosedStep::RetryAt(
                        if next <= deadline {
                            next
                        } else {
                            deadline
                        },
                    )
                }
            },
        }
    }

    fn is_expired(&self, now: u128) -> (over: bool)
        ensures
            over == expired(self@, now as nat),
    {
        match self.deadline {
            Some(deadline) => now >= deadline,
            None => false,
        }
    }

    /// What an attempt that could be issued at `now` does. Whatever was waited for
    /// until then counts against the call: the attempt gets what is left, and a
    /// call that has run out of time issues nothing any more.
    pub fn begin_attempt(&self, now: u128) -> (step: AttemptStep)
        ensures
            step is Issue <==> (self@.deadline matches Some(deadline) ==> now < deadline),
            if expired(self@, now as nat) {
                step matches AttemptStep::Expired(error) && error@ == unanswered(self@)
            } else {
                step matches AttemptStep::Issue(budget) && match self@.deadline {
                    Some(deadline) => budget matches Some(left) && left == deadline - now,
                    None => budget is None,
                }
            },
    {
        match self.deadline {
            None => AttemptStep::Issue(None),
            Some(deadline) => {
                if now >= deadline {
                    AttemptStep::Expired(self.unanswered_error())
                } else {
                    AttemptStep::Issue(Some(deadline - now))
                }
            },
        }
    }
}

/// When the attempts of a call are made that finds nobody: each waits a little
/// after the one before, but never beyond the deadline.
pub open spec fn attempt_time(start: nat, deadline: nat, attempt: nat) -> nat
    decreases attempt,
{
    if attempt == 0 {
        start
    } else {
        shorter(
            attempt_time(start, deadline, (attempt - 1) as nat) + COLD_START_BACKOFF as nat,
            deadline,
        )
    }
}

/// All attempts of a call share its one deadline: they come at even intervals from
/// its start until the deadline cuts them off, and never after it.
pub proof fn law_attempts_share_one_deadline(start: nat, deadline: nat, attempt: nat)
    requires
        start <= deadline,
    ensures
        attempt_time(start, deadline, attempt) == shorter(
            start + attempt * (COLD_START_BACKOFF as nat),
            deadline,
        ),
        attempt_time(start, deadline, attempt) <= deadline,
    decreases attempt,
{
    if attempt > 0 {
        law_attempts_share_one_deadline(start, deadline, (attempt - 1) as nat);
        assert(attempt * (COLD_START_BACKOFF as nat) == (attempt - 1) * (COLD_START_BACKOFF as nat)
            + COLD_START_BACKOFF) by (nonlinear_arith)
            requires
                attempt > 0,
        ;
    }
}

/// A call without a reply in hand is over exactly when its deadline is reached, and
/// never when it has none: what waits for a reply is not cut off earlier. It is then
/// a timeout if its producer had acknowledged the request, else the producer could
/// not be reached; either way the error names whom was called and for what.
pub proof fn law_call_ends_at_its_deadline(call: CallView, now: nat)
    ensures
        expired(call, now) <==> match call.deadline {
            Some(deadline) => now >= deadline,
            None => false,
        },
        match unanswered(call) {
            ErrorView::ServiceTimeout { instance_id, service_name } => call.acknowledged
                && instance_id == call.instance_id && service_name == call.service_name,
            ErrorView::ServiceUnreachable { instance_id, service_name } => !call.acknowledged
                && instance_id == call.instance_id && service_name == call.service_name,
            _ => false,
        },
{
}

/// Time spent is time gone: what is left of a budget and what was spent of it make
/// up the budget, and of a budget that is spent nothing is left.
pub proof fn law_time_spent_is_gone(total: nat, elapsed: nat)
    ensures
        elapsed <= total ==> time_left(total, elapsed) + elapsed == total,
        elapsed >= total ==> time_left(total, elapsed) == 0,
{
}

/// Discovery takes no longer than two seconds, no longer than the caller's budget,
/// and is not cut shorter than the lesser of the two.
pub proof fn law_discovery_time(response_timeout: Option<u128>)
    ensures
        discovery_budget(response_timeout) <= 2_000_000_000,
        match response_timeout {
            None => discovery_budget(response_timeout) == 2_000_000_000,
            Some(total) => discovery_budget(response_timeout) <= total && (discovery_budget(
                response_timeout,
            ) == total || discovery_budget(response_timeout) == 2_000_000_000),
        },
{
}

/// The lesser of two durations is one of them, and exceeds neither.
pub proof fn law_shorter_is_the_lesser(a: nat, b: nat)
    ensures
        shorter(a, b) <= a,
        shorter(a, b) <= b,
        shorter(a, b) == a || shorter(a, b) == b,
{
}

/// A target addresses what its caller pinned and nothing more: a producer by its
/// core node and instance, a core node by its name alone, any producer by neither.
pub proof fn law_target_addresses_what_is_pinned(target: ServiceTarget<'_>)
    ensures
        match target {
            ServiceTarget::Any => target.slots().core_node is None && target.slots().instance_id
                is None,
            ServiceTarget::CoreNode(core_node) => target.slots().core_node == Some(core_node@)
                && target.slots().instance_id is None,
            ServiceTarget::Producer(producer) => target.slots().core_node == Some(
                producer.core_node@,
            ) && target.slots().instance_id == Some(producer.instance_id@),
        },
{
}

/// The first attempt of a call is made at once, and each one after it fifty
/// milliseconds after the one before, or at the deadline if that comes first.
pub proof fn law_attempts_come_every_fifty_milliseconds(start: nat, deadline: nat, attempt: nat)
    ensures
        attempt_time(start, deadline, 0) == start,
        attempt_time(start, deadline, attempt + 1) <= deadline,
        attempt_time(start, deadline, attempt + 1) <= attempt_time(start, deadline, attempt)
            + 50_000_000,
        attempt_time(start, deadline, attempt + 1) == deadline || attempt_time(
            start,
            deadline,
            attempt + 1,
        ) == attempt_time(start, deadline, attempt) + 50_000_000,
        PROBE_TIMEOUT == 500_000_000,
{
}

/// The address of a request is seen as it is.
pub proof fn law_wire_target_is_seen_as_it_is(target: WireTarget)
    ensures
        target.core_node is None <==> target@.core_node is None,
        target.core_node matches Some(core_node) ==> target@.core_node == Some(core_node@),
        target.instance_id is None <==> target@.instance_id is None,
        target.instance_id matches Some(instance_id) ==> target@.instance_id == Some(instance_id@),
{
}

} // verus!
