//! The errors of the library and their mathematical view.
use crate::cardinality::Cardinality;
use crate::text;
use crate::text::decimal_text;
use vstd::prelude::*;
use vstd::string::*;

verus! {

/// Everything that can go wrong in the library.
#[allow(inconsistent_fields)]
#[derive(Debug, PartialEq, Eq)]
pub enum Error {
    /// A wire envelope could not be built or read.
    InternalEncodingError { identifier: String, reason: String },
    /// A message could not be decoded.
    Deserialization(String),
    /// A reached service did not answer in time.
    ServiceTimeout { instance_id: Option<String>, service_name: String },
    /// No service answered.
    ServiceUnreachable { instance_id: Option<String>, service_name: String },
    /// A service handler answered with an error.
    ServiceError { instance_id: Option<String>, service_name: String, reason: String },
    /// A service's request stream closed.
    ServiceRequestStreamClosed,
    /// A goal's feedback stream ended.
    ActionFeedbackChannelClosed,
    /// The producer a goal is pinned to disappeared.
    ActionFeedbackProducerGone { instance_id: Option<String>, action_name: String },
    /// A result request reached the producer and timed out.
    ActionResultTimeout { instance_id: Option<String>, action_name: String },
    /// A result request reached no producer.
    ActionResultUnreachable { instance_id: Option<String>, action_name: String },
    /// An announced endpoint label is not declared by the manifest.
    UndeclaredEndpoint { label: String },
    /// An endpoint was announced after the set was sealed.
    EndpointsSealed { label: String },
    /// An endpoint label was announced twice.
    EndpointAlreadyAnnounced { label: String },
    /// An announced endpoint binding is malformed.
    InvalidEndpointBinding { label: String, reason: String },
    /// A declared endpoint was never announced.
    EndpointNotAnnounced { label: String },
    /// The node's parameters were taken a second time.
    ParametersAlreadyTaken,
    /// A declared consumer slot has no binding.
    SlotUnbound { link_id: String, cardinality: Cardinality },
    /// A consumer slot's bound set has a size its cardinality forbids.
    SlotCardinalityViolated { link_id: String, cardinality: Cardinality, bound: usize },
    /// A call targets a producer outside the slot's bound set.
    TargetNotBound { link_id: String, core_node: String, instance_id: String },
    /// An observation seed names a slot the manifest does not declare.
    ObservationSeedUndeclared { link_id: String },
    /// An observation seed names one observed pairing twice.
    ObservationSeedDuplicate {
        link_id: String,
        core_node: String,
        instance_id: String,
        source_link_id: String,
    },
    /// An observation seed has a size the slot's cardinality forbids.
    ObservationSeedViolated { link_id: String, cardinality: Cardinality, seeded: usize },
    /// A producer occurs twice in one bound set.
    DuplicateBoundProducer { core_node: String, instance_id: String },
    /// A core node occurs twice among the simulated-time participants.
    DuplicateSimTimeParticipant { core_node: String },
    /// An instance id is not a valid name.
    InvalidNodeName { node_name: String, reason: String },
    /// A core-node name is not a valid name.
    InvalidCoreNodeName { node_name: String, reason: String },
    /// The manifest changed since the bindings were generated.
    PeppyConfigFingerprintMismatch { path: String, expected: String, actual: String },
    /// The manifest declares no such observer slot.
    UnknownObservationSlot { link_id: String },
    /// The manifest declares no such pairing slot.
    UnknownPairingSlot { link_id: String },
    /// A pairing slot's channel closed.
    PairingSlotClosed,
    /// A publish names a peer outside the slot's current peers.
    PeerNotPaired { link_id: String, peer: String },
    /// The node arguments do not satisfy the manifest's parameter schema.
    NodeArgumentsValidation(String),
    /// The transport refused an operation.
    Transport(String),
    /// An input or output operation failed.
    Io(String),
    /// The node's runtime could not be set up, or one of its tasks panicked.
    RuntimeInitialization { context: String, reason: String },
}

/// The view of an [`Error`]: the same alternatives over character sequences.
#[allow(inconsistent_fields)]
pub enum ErrorView {
    InternalEncodingError { identifier: Seq<char>, reason: Seq<char> },
    Deserialization(Seq<char>),
    ServiceTimeout { instance_id: Option<Seq<char>>, service_name: Seq<char> },
    ServiceUnreachable { instance_id: Option<Seq<char>>, service_name: Seq<char> },
    ServiceError { instance_id: Option<Seq<char>>, service_name: Seq<char>, reason: Seq<char> },
    ServiceRequestStreamClosed,
    ActionFeedbackChannelClosed,
    ActionFeedbackProducerGone { instance_id: Option<Seq<char>>, action_name: Seq<char> },
    ActionResultTimeout { instance_id: Option<Seq<char>>, action_name: Seq<char> },
    ActionResultUnreachable { instance_id: Option<Seq<char>>, action_name: Seq<char> },
    UndeclaredEndpoint { label: Seq<char> },
    EndpointsSealed { label: Seq<char> },
    EndpointAlreadyAnnounced { label: Seq<char> },
    InvalidEndpointBinding { label: Seq<char>, reason: Seq<char> },
    EndpointNotAnnounced { label: Seq<char> },
    ParametersAlreadyTaken,
    SlotUnbound { link_id: Seq<char>, cardinality: Cardinality },
    SlotCardinalityViolated { link_id: Seq<char>, cardinality: Cardinality, bound: nat },
    TargetNotBound { link_id: Seq<char>, core_node: Seq<char>, instance_id: Seq<char> },
    ObservationSeedUndeclared { link_id: Seq<char> },
    ObservationSeedDuplicate {
        link_id: Seq<char>,
        core_node: Seq<char>,
        instance_id: Seq<char>,
        source_link_id: Seq<char>,
    },
    ObservationSeedViolated { link_id: Seq<char>, cardinality: Cardinality, seeded: nat },
    DuplicateBoundProducer { core_node: Seq<char>, instance_id: Seq<char> },
    DuplicateSimTimeParticipant { core_node: Seq<char> },
    InvalidNodeName { node_name: Seq<char>, reason: Seq<char> },
    InvalidCoreNodeName { node_name: Seq<char>, reason: Seq<char> },
    PeppyConfigFingerprintMismatch { path: Seq<char>, expected: Seq<char>, actual: Seq<char> },
    UnknownObservationSlot { link_id: Seq<char> },
    UnknownPairingSlot { link_id: Seq<char> },
    PairingSlotClosed,
    PeerNotPaired { link_id: Seq<char>, peer: Seq<char> },
    NodeArgumentsValidation(Seq<char>),
    Transport(Seq<char>),
    Io(Seq<char>),
    RuntimeInitialization { context: Seq<char>, reason: Seq<char> },
}

/// The view of an optional string.
pub open spec fn optional_text(text: Option<String>) -> Option<Seq<char>> {
    match text {
        Some(some) => Some(some@),
        None => None,
    }
}

impl View for Error {
    type V = ErrorView;

    open spec fn view(&self) -> ErrorView {
        match *self {
            Error::InternalEncodingError { identifier, reason } => ErrorView::InternalEncodingError {
                identifier: identifier@,
                reason: reason@,
            },
            Error::Deserialization(reason) => ErrorView::Deserialization(reason@),
            Error::ServiceTimeout { instance_id, service_name } => ErrorView::ServiceTimeout {
                instance_id: optional_text(instance_id),
                service_name: service_name@,
            },
            Error::ServiceUnreachable { instance_id, service_name } => ErrorView::ServiceUnreachable {
                instance_id: optional_text(instance_id),
                service_name: service_name@,
            },
            Error::ServiceError { instance_id, service_name, reason } => ErrorView::ServiceError {
                instance_id: optional_text(instance_id),
                service_name: service_name@,
                reason: reason@,
            },
            Error::ServiceRequestStreamClosed => ErrorView::ServiceRequestStreamClosed,
            Error::ActionFeedbackChannelClosed => ErrorView::ActionFeedbackChannelClosed,
            Error::ActionFeedbackProducerGone { instance_id, action_name } => {
                ErrorView::ActionFeedbackProducerGone {
                    instance_id: optional_text(instance_id),
                    action_name: action_name@,
                }
            },
            Error::ActionResultTimeout { instance_id, action_name } => ErrorView::ActionResultTimeout {
                instance_id: optional_text(instance_id),
                action_name: action_name@,
            },
            Error::ActionResultUnreachable { instance_id, action_name } => {
                ErrorView::ActionResultUnreachable {
                    instance_id: optional_text(instance_id),
                    action_name: action_name@,
                }
            },
            Error::UndeclaredEndpoint { label } => ErrorView::UndeclaredEndpoint { label: label@ },
            Error::EndpointsSealed { label } => ErrorView::EndpointsSealed { label: label@ },
            Error::EndpointAlreadyAnnounced { label } => ErrorView::EndpointAlreadyAnnounced {
                label: label@,
            },
            Error::InvalidEndpointBinding { label, reason } => ErrorView::InvalidEndpointBinding {
                label: label@,
                reason: reason@,
            },
            Error::EndpointNotAnnounced { label } => ErrorView::EndpointNotAnnounced { label: label@ },
            Error::ParametersAlreadyTaken => ErrorView::ParametersAlreadyTaken,
            Error::SlotUnbound { link_id, cardinality } => ErrorView::SlotUnbound {
                link_id: link_id@,
                cardinality,
            },
            Error::SlotCardinalityViolated { link_id, cardinality, bound } => {
                ErrorView::SlotCardinalityViolated {
                    link_id: link_id@,
                    cardinality,
                    bound: bound as nat,
                }
            },
            Error::TargetNotBound { link_id, core_node, instance_id } => ErrorView::TargetNotBound {
                link_id: link_id@,
                core_node: core_node@,
                instance_id: instance_id@,
            },
            Error::ObservationSeedUndeclared { link_id } => ErrorView::ObservationSeedUndeclared {
                link_id: link_id@,
            },
            Error::ObservationSeedDuplicate { link_id, core_node, instance_id, source_link_id } => {
                ErrorView::ObservationSeedDuplicate {
                    link_id: link_id@,
                    core_node: core_node@,
                    instance_id: instance_id@,
                    source_link_id: source_link_id@,
                }
            },
            Error::ObservationSeedViolated { link_id, cardinality, seeded } => {
                ErrorView::ObservationSeedViolated {
                    link_id: link_id@,
                    cardinality,
                    seeded: seeded as nat,
                }
            },
            Error::DuplicateBoundProducer { core_node, instance_id } => {
                ErrorView::DuplicateBoundProducer {
                    core_node: core_node@,
                    instance_id: instance_id@,
                }
            },
            Error::DuplicateSimTimeParticipant { core_node } => {
                ErrorView::DuplicateSimTimeParticipant { core_node: core_node@ }
            },
            Error::InvalidNodeName { node_name, reason } => ErrorView::InvalidNodeName {
                node_name: node_name@,
                reason: reason@,
            },
            Error::InvalidCoreNodeName { node_name, reason } => ErrorView::InvalidCoreNodeName {
                node_name: node_name@,
                reason: reason@,
            },
            Error::PeppyConfigFingerprintMismatch { path, expected, actual } => {
                ErrorView::PeppyConfigFingerprintMismatch {
                    path: path@,
                    expected: expected@,
                    actual: actual@,
                }
            },
            Error::UnknownObservationSlot { link_id } => ErrorView::UnknownObservationSlot {
                link_id: link_id@,
            },
            Error::UnknownPairingSlot { link_id } => ErrorView::UnknownPairingSlot {
                link_id: link_id@,
            },
            Error::PairingSlotClosed => ErrorView::PairingSlotClosed,
            Error::PeerNotPaired { link_id, peer } => ErrorView::PeerNotPaired {
                link_id: link_id@,
                peer: peer@,
            },
            Error::NodeArgumentsValidation(reason) => ErrorView::NodeArgumentsValidation(reason@),
            Error::Transport(reason) => ErrorView::Transport(reason@),
            Error::Io(reason) => ErrorView::Io(reason@),
            Error::RuntimeInitialization { context, reason } => ErrorView::RuntimeInitialization {
                context: context@,
                reason: reason@,
            },
        }
    }
}

/// Which instance an error is about, if that is known.
pub open spec fn on_instance(instance_id: Option<Seq<char>>) -> Seq<char> {
    match instance_id {
        Some(instance_id) => " on instance `"@ + instance_id + "`"@,
        None => Seq::empty(),
    }
}

impl ErrorView {
    /// What is said of an error.
    pub open spec fn text(self) -> Seq<char> {
        match self {
            ErrorView::InternalEncodingError { identifier, reason } => "could not encode or decode `"@ + identifier + "`: "@ + reason,
            ErrorView::Deserialization(reason) => "could not decode the message: "@ + reason,
            ErrorView::ServiceTimeout { instance_id, service_name } => "service `"@ + service_name + "` did not answer in time"@ + on_instance(instance_id),
            ErrorView::ServiceUnreachable { instance_id, service_name } => "service `"@ + service_name + "` is unreachable"@ + on_instance(instance_id),
            ErrorView::ServiceError { instance_id, service_name, reason } => "service `"@ + service_name + "` failed"@ + on_instance(instance_id) + ": "@ + reason,
            ErrorView::ServiceRequestStreamClosed => "the service's request stream is closed"@,
            ErrorView::ActionFeedbackChannelClosed => "the goal's feedback stream has ended"@,
            ErrorView::ActionFeedbackProducerGone { instance_id, action_name } => "the producer of action `"@ + action_name + "` is gone"@ + on_instance(instance_id),
            ErrorView::ActionResultTimeout { instance_id, action_name } => "the result of action `"@ + action_name + "` did not arrive in time"@ + on_instance(instance_id),
            ErrorView::ActionResultUnreachable { instance_id, action_name } => "the producer of action `"@ + action_name + "` is unreachable"@ + on_instance(instance_id),
            ErrorView::UndeclaredEndpoint { label } => "endpoint `"@ + label + "` is not declared by the manifest"@,
            ErrorView::EndpointsSealed { label } => "endpoint `"@ + label + "` was announced after setup ended"@,
            ErrorView::EndpointAlreadyAnnounced { label } => "endpoint `"@ + label + "` was announced before"@,
            ErrorView::InvalidEndpointBinding { label, reason } => "endpoint `"@ + label + "` cannot be announced: "@ + reason,
            ErrorView::EndpointNotAnnounced { label } => "endpoint `"@ + label + "` is declared but was not announced"@,
            ErrorView::ParametersAlreadyTaken => "the parameters were taken before"@,
            ErrorView::SlotUnbound { link_id, cardinality } => "slot `"@ + link_id + "` of cardinality `"@ + cardinality.spelling() + "` is not bound"@,
            ErrorView::SlotCardinalityViolated { link_id, cardinality, bound } => "slot `"@ + link_id + "` of cardinality `"@ + cardinality.spelling() + "` is bound to "@ + text::decimal(bound) + " producers"@,
            ErrorView::TargetNotBound { link_id, core_node, instance_id } => "producer `"@ + core_node + "/"@ + instance_id + "` is not bound to slot `"@ + link_id + "`"@,
            ErrorView::ObservationSeedUndeclared { link_id } => "observer slot `"@ + link_id + "` is seeded but not declared"@,
            ErrorView::ObservationSeedDuplicate { link_id, core_node, instance_id, source_link_id } => "observer slot `"@ + link_id + "` is seeded twice with `"@ + core_node + "/"@ + instance_id + "/"@ + source_link_id + "`"@,
            ErrorView::ObservationSeedViolated { link_id, cardinality, seeded } => "observer slot `"@ + link_id + "` of cardinality `"@ + cardinality.spelling() + "` is seeded with "@ + text::decimal(seeded) + " sources"@,
            ErrorView::DuplicateBoundProducer { core_node, instance_id } => "producer `"@ + core_node + "/"@ + instance_id + "` is bound twice to one slot"@,
            ErrorView::DuplicateSimTimeParticipant { core_node } => "core node `"@ + core_node + "` occurs twice among the simulated-time participants"@,
            ErrorView::InvalidNodeName { node_name, reason } => "`"@ + node_name + "` is not a valid instance id: "@ + reason,
            ErrorView::InvalidCoreNodeName { node_name, reason } => "`"@ + node_name + "` is not a valid core-node name: "@ + reason,
            ErrorView::PeppyConfigFingerprintMismatch { path, expected, actual } => "fingerprint mismatch for `"@ + path + "`: the bindings were generated from "@ + expected + ", the manifest has "@ + actual,
            ErrorView::UnknownObservationSlot { link_id } => "observer slot `"@ + link_id + "` is not declared"@,
            ErrorView::UnknownPairingSlot { link_id } => "pairing slot `"@ + link_id + "` is not declared"@,
            ErrorView::PairingSlotClosed => "the pairing slot is closed"@,
            ErrorView::PeerNotPaired { link_id, peer } => "peer `"@ + peer + "` is not paired on slot `"@ + link_id + "`"@,
            ErrorView::NodeArgumentsValidation(reason) => "the node's arguments are invalid: "@ + reason,
            ErrorView::Transport(reason) => "the transport failed: "@ + reason,
            ErrorView::Io(reason) => "input or output failed: "@ + reason,
            ErrorView::RuntimeInitialization { context, reason } => context + ": "@ + reason,
        }
    }
}

fn append_instance(message: &mut String, instance_id: &Option<String>)
    ensures
        final(message)@ == old(message)@ + on_instance(optional_text(*instance_id)),
{
    if let Some(instance_id) = instance_id {
        message.append(" on instance `");
        message.append(instance_id.as_str());
        message.append("`");
    }
    proof {
        assert(final(message)@ =~= old(message)@ + on_instance(optional_text(*instance_id)));
    }
}

impl Error {
    /// What is said of this error.
    pub fn describe(&self) -> (message: String)
        ensures
            message@ == self@.text(),
    {
        let mut message: String = String::new();
        match self {
            Error::InternalEncodingError { identifier, reason } => {
                message.append("could not encode or decode `");
                message.append(identifier.as_str());
                message.append("`: ");
                message.append(reason.as_str());
            },
            Error::Deserialization(reason) => {
                message.append("could not decode the message: ");
                message.append(reason.as_str());
            },
            Error::ServiceTimeout { instance_id, service_name } => {
                message.append("service `");
                message.append(service_name.as_str());
                message.append("` did not answer in time");
                append_instance(&mut message, instance_id);
            },
            Error::ServiceUnreachable { instance_id, service_name } => {
                message.append("service `");
                message.append(service_name.as_str());
                message.append("` is unreachable");
                append_instance(&mut message, instance_id);
            },
            Error::ServiceError { instance_id, service_name, reason } => {
                message.append("service `");
                message.append(service_name.as_str());
                message.append("` failed");
                append_instance(&mut message, instance_id);
                message.append(": ");
                message.append(reason.as_str());
            },
            Error::ServiceRequestStreamClosed => {
                message.append("the service's request stream is closed");
            },
            Error::ActionFeedbackChannelClosed => {
                message.append("the goal's feedback stream has ended");
            },
            Error::ActionFeedbackProducerGone { instance_id, action_name } => {
                message.append("the producer of action `");
                message.append(action_name.as_str());
                message.append("` is gone");
                append_instance(&mut message, instance_id);
            },
            Error::ActionResultTimeout { instance_id, action_name } => {
                message.append("the result of action `");
                message.append(action_name.as_str());
                message.append("` did not arrive in time");
                append_instance(&mut message, instance_id);
            },
            Error::ActionResultUnreachable { instance_id, action_name } => {
                message.append("the producer of action `");
                message.append(action_name.as_str());
                message.append("` is unreachable");
                append_instance(&mut message, instance_id);
            },
            Error::UndeclaredEndpoint { label } => {
                message.append("endpoint `");
                message.append(label.as_str());
                message.append("` is not declared by the manifest");
            },
            Error::EndpointsSealed { label } => {
                message.append("endpoint `");
                message.append(label.as_str());
                message.append("` was announced after setup ended");
            },
            Error::EndpointAlreadyAnnounced { label } => {
                message.append("endpoint `");
                message.append(label.as_str());
                message.append("` was announced before");
            },
            Error::InvalidEndpointBinding { label, reason } => {
                message.append("endpoint `");
                message.append(label.as_str());
                message.append("` cannot be announced: ");
                message.append(reason.as_str());
            },
            Error::EndpointNotAnnounced { label } => {
                message.append("endpoint `");
                message.append(label.as_str());
                message.append("` is declared but was not announced");
            },
            Error::ParametersAlreadyTaken => {
                message.append("the parameters were taken before");
            },
            Error::SlotUnbound { link_id, cardinality } => {
                message.append("slot `");
                message.append(link_id.as_str());
                message.append("` of cardinality `");
                message.append(cardinality.as_str());
                message.append("` is not bound");
            },
            Error::SlotCardinalityViolated { link_id, cardinality, bound } => {
                message.append("slot `");
                message.append(link_id.as_str());
                message.append("` of cardinality `");
                message.append(cardinality.as_str());
                message.append("` is bound to ");
                message.append(decimal_text(*bound as u64).as_str());
                message.append(" producers");
            },
            Error::TargetNotBound { link_id, core_node, instance_id } => {
                message.append("producer `");
                message.append(core_node.as_str());
                message.append("/");
                message.append(instance_id.as_str());
                message.append("` is not bound to slot `");
                message.append(link_id.as_str());
                message.append("`");
            },
            Error::ObservationSeedUndeclared { link_id } => {
                message.append("observer slot `");
                message.append(link_id.as_str());
                message.append("` is seeded but not declared");
            },
            Error::ObservationSeedDuplicate { link_id, core_node, instance_id, source_link_id } => {
                message.append("observer slot `");
                message.append(link_id.as_str());
                message.append("` is seeded twice with `");
                message.append(core_node.as_str());
                message.append("/");
                message.append(instance_id.as_str());
                message.append("/");
                message.append(source_link_id.as_str());
                message.append("`");
            },
            Error::ObservationSeedViolated { link_id, cardinality, seeded } => {
                message.append("observer slot `");
                message.append(link_id.as_str());
                message.append("` of cardinality `");
                message.append(cardinality.as_str());
                message.append("` is seeded with ");
                message.append(decimal_text(*seeded as u64).as_str());
                message.append(" sources");
            },
            Error::DuplicateBoundProducer { core_node, instance_id } => {
                message.append("producer `");
                message.append(core_node.as_str());
                message.append("/");
                message.append(instance_id.as_str());
                message.append("` is bound twice to one slot");
            },
            Error::DuplicateSimTimeParticipant { core_node } => {
                message.append("core node `");
                message.append(core_node.as_str());
                message.append("` occurs twice among the simulated-time participants");
            },
            Error::InvalidNodeName { node_name, reason } => {
                message.append("`");
                message.append(node_name.as_str());
                message.append("` is not a valid instance id: ");
                message.append(reason.as_str());
            },
            Error::InvalidCoreNodeName { node_name, reason } => {
                message.append("`");
                message.append(node_name.as_str());
                message.append("` is not a valid core-node name: ");
                message.append(reason.as_str());
            },
            Error::PeppyConfigFingerprintMismatch { path, expected, actual } => {
                message.append("fingerprint mismatch for `");
                message.append(path.as_str());
                message.append("`: the bindings were generated from ");
                message.append(expected.as_str());
                message.append(", the manifest has ");
                message.append(actual.as_str());
            },
            Error::UnknownObservationSlot { link_id } => {
                message.append("observer slot `");
                message.append(link_id.as_str());
                message.append("` is not declared");
            },
            Error::UnknownPairingSlot { link_id } => {
                message.append("pairing slot `");
                message.append(link_id.as_str());
                message.append("` is not declared");
            },
            Error::PairingSlotClosed => {
                message.append("the pairing slot is closed");
            },
            Error::PeerNotPaired { link_id, peer } => {
                message.append("peer `");
                message.append(peer.as_str());
                message.append("` is not paired on slot `");
                message.append(link_id.as_str());
                message.append("`");
            },
            Error::NodeArgumentsValidation(reason) => {
                message.append("the node's arguments are invalid: ");
                message.append(reason.as_str());
            },
            Error::Transport(reason) => {
                message.append("the transport failed: ");
                message.append(reason.as_str());
            },
            Error::Io(reason) => {
                message.append("input or output failed: ");
                message.append(reason.as_str());
            },
            Error::RuntimeInitialization { context, reason } => {
                message.append(context.as_str());
                message.append(": ");
                message.append(reason.as_str());
            },
        }
        proof {
            assert(message@ =~= self@.text());
        }
        message
    }
}

/// The result of a fallible library operation.
pub type Result<T> = std::result::Result<T, Error>;

/// An error is seen as what it is: the same kind, with the same texts.
pub proof fn law_errors_are_seen_as_they_are(error: Error)
    ensures
        match error {
            Error::ServiceTimeout { instance_id, service_name } => error@ == (
            ErrorView::ServiceTimeout {
                instance_id: match instance_id {
                    Some(id) => Some(id@),
                    None => None,
                },
                service_name: service_name@,
            }),
            Error::ServiceUnreachable { instance_id, service_name } => error@ == (
            ErrorView::ServiceUnreachable {
                instance_id: match instance_id {
                    Some(id) => Some(id@),
                    None => None,
                },
                service_name: service_name@,
            }),
            Error::ServiceError { instance_id, service_name, reason } => error@ == (
            ErrorView::ServiceError {
                instance_id: match instance_id {
                    Some(id) => Some(id@),
                    None => None,
                },
                service_name: service_name@,
                reason: reason@,
            }),
            Error::ActionFeedbackProducerGone { instance_id, action_name } => error@ == (
            ErrorView::ActionFeedbackProducerGone {
                instance_id: match instance_id {
                    Some(id) => Some(id@),
                    None => None,
                },
                action_name: action_name@,
            }),
            Error::ActionResultTimeout { instance_id, action_name } => error@ == (
            ErrorView::ActionResultTimeout {
                instance_id: match instance_id {
                    Some(id) => Some(id@),
                    None => None,
                },
                action_name: action_name@,
            }),
            Error::ActionResultUnreachable { instance_id, action_name } => error@ == (
            ErrorView::ActionResultUnreachable {
                instance_id: match instance_id {
                    Some(id) => Some(id@),
                    None => None,
                },
                action_name: action_name@,
            }),
            Error::InternalEncodingError { identifier, reason } => error@ == (
            ErrorView::InternalEncodingError { identifier: identifier@, reason: reason@ }),
            Error::Deserialization(reason) => error@ == ErrorView::Deserialization(reason@),
            Error::ServiceRequestStreamClosed => error@ is ServiceRequestStreamClosed,
            Error::ActionFeedbackChannelClosed => error@ is ActionFeedbackChannelClosed,
            Error::UndeclaredEndpoint { label } => error@ == (ErrorView::UndeclaredEndpoint {
                label: label@,
            }),
            Error::EndpointsSealed { label } => error@ == (ErrorView::EndpointsSealed { label: label@ }),
            Error::EndpointAlreadyAnnounced { label } => error@ == (
            ErrorView::EndpointAlreadyAnnounced { label: label@ }),
            Error::InvalidEndpointBinding { label, reason } => error@ == (
            ErrorView::InvalidEndpointBinding { label: label@, reason: reason@ }),
            Error::EndpointNotAnnounced { label } => error@ == (ErrorView::EndpointNotAnnounced {
                label: label@,
            }),
            Error::ParametersAlreadyTaken => error@ is ParametersAlreadyTaken,
            Error::SlotUnbound { link_id, cardinality } => error@ == (ErrorView::SlotUnbound {
                link_id: link_id@,
                cardinality,
            }),
            Error::SlotCardinalityViolated { link_id, cardinality, bound } => error@ == (
            ErrorView::SlotCardinalityViolated {
                link_id: link_id@,
                cardinality,
                bound: bound as nat,
            }),
            Error::TargetNotBound { link_id, core_node, instance_id } => error@ == (
            ErrorView::TargetNotBound {
                link_id: link_id@,
                core_node: core_node@,
                instance_id: instance_id@,
            }),
            Error::ObservationSeedUndeclared { link_id } => error@ == (
            ErrorView::ObservationSeedUndeclared { link_id: link_id@ }),
            Error::ObservationSeedDuplicate { link_id, core_node, instance_id, source_link_id } => error@
                == (ErrorView::ObservationSeedDuplicate {
                link_id: link_id@,
                core_node: core_node@,
                instance_id: instance_id@,
                source_link_id: source_link_id@,
            }),
            Error::ObservationSeedViolated { link_id, cardinality, seeded } => error@ == (
            ErrorView::ObservationSeedViolated {
                link_id: link_id@,
                cardinality,
                seeded: seeded as nat,
            }),
            Error::DuplicateBoundProducer { core_node, instance_id } => error@ == (
            ErrorView::DuplicateBoundProducer {
                core_node: core_node@,
                instance_id: instance_id@,
            }),
            Error::DuplicateSimTimeParticipant { core_node } => error@ == (
            ErrorView::DuplicateSimTimeParticipant { core_node: core_node@ }),
            Error::InvalidNodeName { node_name, reason } => error@ == (ErrorView::InvalidNodeName {
                node_name: node_name@,
                reason: reason@,
            }),
            Error::InvalidCoreNodeName { node_name, reason } => error@ == (
            ErrorView::InvalidCoreNodeName { node_name: node_name@, reason: reason@ }),
            Error::PeppyConfigFingerprintMismatch { path, expected, actual } => error@ == (
            ErrorView::PeppyConfigFingerprintMismatch {
                path: path@,
                expected: expected@,
                actual: actual@,
            }),
            Error::UnknownObservationSlot { link_id } => error@ == (
            ErrorView::UnknownObservationSlot { link_id: link_id@ }),
            Error::UnknownPairingSlot { link_id } => error@ == (ErrorView::UnknownPairingSlot {
                link_id: link_id@,
            }),
            Error::PairingSlotClosed => error@ is PairingSlotClosed,
            Error::PeerNotPaired { link_id, peer } => error@ == (ErrorView::PeerNotPaired {
                link_id: link_id@,
                peer: peer@,
            }),
            Error::NodeArgumentsValidation(reason) => error@ == ErrorView::NodeArgumentsValidation(
                reason@,
            ),
            Error::Transport(reason) => error@ == ErrorView::Transport(reason@),
            Error::Io(reason) => error@ == ErrorView::Io(reason@),
            Error::RuntimeInitialization { context, reason } => error@ == (
            ErrorView::RuntimeInitialization { context: context@, reason: reason@ }),
        },
{
}

/// An optional text is seen as what it is.
pub proof fn law_optional_text(text: Option<String>)
    ensures
        text matches Some(some) ==> optional_text(text) == Some(some@),
        text is None ==> optional_text(text) is None,
{
}

} // verus!
