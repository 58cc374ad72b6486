//! A goal's feedback stream and how it ends.
use crate::error::{Error, ErrorView, Result};
use crate::message::Message;
use crate::payload::Payload;
use crate::producer::{ProducerRef, ProducerView};
use vstd::prelude::*;

verus! {

/// A payload was empty where it must not be.
#[derive(Debug, Clone, Copy, PartialEq, Eq)]
pub struct EmptyPayloadError;

/// A payload that holds at least one byte. The empty payload ends a feedback
/// stream, so it cannot be published as feedback.
pub struct NonEmptyPayload {
    inner: Payload,
}

impl View for NonEmptyPayload {
    type V = Seq<u8>;

    closed spec fn view(&self) -> Seq<u8> {
        self.inner@
    }
}

impl NonEmptyPayload {
    #[verifier::type_invariant]
    spec fn holds_a_byte(self) -> bool {
        self.inner@.len() > 0
    }

    /// Accepts `payload` if it holds at least one byte.
    pub fn try_new(payload: Payload) -> (accepted: std::result::Result<Self, EmptyPayloadError>)
        ensures
            match accepted {
                Ok(accepted) => payload@.len() > 0 && accepted@ == payload@,
                Err(_) => payload@.len() == 0,
            },
    {
        if payload.is_empty() {
            Err(EmptyPayloadError)
        } else {
            Ok(NonEmptyPayload { inner: payload })
        }
    }

    /// The payload.
    pub fn into_inner(self) -> (payload: Payload)
        ensures
            payload@ == self@,
            payload@.len() > 0,
    {
        proof {
            use_type_invariant(&self);
        }
        self.inner
    }
}

/// Whether `payload` ends a feedback stream.
pub open spec fn ends_stream(payload: Seq<u8>) -> bool {
    payload.len() == 0
}

/// The payload that ends a feedback stream.
pub fn end_sentinel() -> (payload: Payload)
    ensures
        payload@ == Seq::<u8>::empty(),
        ends_stream(payload@),
{
    Payload::new()
}

/// The payload that publishes `feedback`. It never ends the stream.
pub fn feedback_payload(feedback: NonEmptyPayload) -> (payload: Payload)
    ensures
        payload@ == feedback@,
        !ends_stream(payload@),
{
    feedback.into_inner()
}

/// Whether `message` ends the feedback stream it arrived on.
pub fn is_end_sentinel(message: &Message) -> (ends: bool)
    ensures
        ends == ends_stream(message@.payload),
{
    message.payload_bytes().len() == 0
}

/// The producer side of a goal's feedback: an action without a feedback topic
/// has nothing to publish on.
pub fn publish_feedback(has_topic: bool, feedback: NonEmptyPayload) -> (published: Result<Payload>)
    ensures
        if has_topic {
            published matches Ok(payload) && payload@ == feedback@ && !ends_stream(payload@)
        } else {
            published matches Err(error) && error@ == ErrorView::Io(
                "publish_feedback called on an action with no feedback topic"@,
            )
        },
{
    if has_topic {
        Ok(feedback_payload(feedback))
    } else {
        Err(Error::Io("publish_feedback called on an action with no feedback topic".to_owned()))
    }
}

/// The action a goal was sent to, and the producer it is pinned to.
pub struct ActionTarget {
    pub action_name: String,
    pub producer: Option<ProducerRef>,
}

/// The view of an [`ActionTarget`].
pub struct ActionTargetView {
    pub action_name: Seq<char>,
    pub producer: Option<ProducerView>,
}

impl View for ActionTarget {
    type V = ActionTargetView;

    open spec fn view(&self) -> ActionTargetView {
        ActionTargetView {
            action_name: self.action_name@,
            producer: match self.producer {
                Some(producer) => Some(producer@),
                None => None,
            },
        }
    }
}

impl Clone for ActionTarget {
    fn clone(&self) -> (copy: Self)
        ensures
            copy@ == self@,
    {
        ActionTarget {
            action_name: self.action_name.clone(),
            producer: match &self.producer {
                Some(producer) => Some(producer.clone()),
                None => None,
            },
        }
    }
}

/// The instance id a goal is pinned to.
pub open spec fn target_instance_id(target: ActionTargetView) -> Option<Seq<char>> {
    match target.producer {
        Some(producer) => Some(producer.instance_id),
        None => None,
    }
}

/// The error of a goal whose pinned producer disappeared.
pub open spec fn producer_gone(target: ActionTargetView) -> ErrorView {
    ErrorView::ActionFeedbackProducerGone {
        instance_id: target_instance_id(target),
        action_name: target.action_name,
    }
}

/// The error of a goal whose pinned producer disappeared.
pub fn producer_gone_error(target: &ActionTarget) -> (error: Error)
    ensures
        error@ == producer_gone(target@),
{
    Error::ActionFeedbackProducerGone {
        instance_id: match &target.producer {
            Some(producer) => Some(producer.instance_id.clone()),
            None => None,
        },
        action_name: target.action_name.clone(),
    }
}

/// What a look at the feedback subscription found.
pub enum FeedbackPoll {
    /// The next buffered message.
    Received(Message),
    /// Nothing is buffered.
    Empty,
    /// The subscription closed.
    Disconnected,
}

/// The next feedback of a goal, if there is any yet. What is buffered comes
/// first: the loss of the producer surfaces only once the buffer is drained, so a
/// graceful close is still reported as such.
pub fn next_feedback(target: &ActionTarget, poll: FeedbackPoll, gone: bool) -> (next: Result<
    Option<Message>,
>)
    ensures
        match poll {
            FeedbackPoll::Received(message) => if ends_stream(message@.payload) {
                next matches Err(error) && error@ == ErrorView::ActionFeedbackChannelClosed
            } else {
                next == Ok::<Option<Message>, Error>(Some(message))
            },
            FeedbackPoll::Empty => if gone {
                next matches Err(error) && error@ == producer_gone(target@)
            } else {
                next == Ok::<Option<Message>, Error>(None)
            },
            FeedbackPoll::Disconnected => next matches Err(error) && error@
                == ErrorView::ActionFeedbackChannelClosed,
        },
{
    match poll {
        FeedbackPoll::Received(message) => {
            if is_end_sentinel(&message) {
                Err(Error::ActionFeedbackChannelClosed)
            } else {
                Ok(Some(message))
            }
        },
        FeedbackPoll::Empty => {
            if gone {
                Err(producer_gone_error(target))
            } else {
                Ok(None)
            }
        },
        FeedbackPoll::Disconnected => Err(Error::ActionFeedbackChannelClosed),
    }
}

/// Every feedback payload a producer can publish is read as feedback, and only the
/// end-of-stream payload is read as the end.
pub proof fn law_only_the_sentinel_ends_the_stream(payload: Seq<u8>)
    ensures
        ends_stream(payload) <==> payload == Seq::<u8>::empty(),
{
    if payload.len() == 0 {
        assert(payload =~= Seq::<u8>::empty());
    }
}

/// The loss of a producer is reported with the action it served and, where a producer
/// was addressed, with its instance.
pub proof fn law_lost_producer_is_named(target: ActionTargetView)
    ensures
        match producer_gone(target) {
            ErrorView::ActionFeedbackProducerGone { instance_id, action_name } => action_name
                == target.action_name && match target.producer {
                Some(producer) => instance_id == Some(producer.instance_id),
                None => instance_id is None,
            },
            _ => false,
        },
{
}

/// Whom a goal goes to is seen as it is.
pub proof fn law_action_target_is_seen_as_it_is(target: ActionTarget)
    ensures
        target@.action_name == target.action_name@,
        target.producer is None <==> target@.producer is None,
        target.producer matches Some(producer) ==> target@.producer == Some(
            ProducerView { core_node: producer.core_node@, instance_id: producer.instance_id@ },
        ),
{
}

} // verus!
