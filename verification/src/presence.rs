//! Advertising, watching and listing live core nodes.
use crate::error::Result;
use vstd::prelude::*;

verus! {

/// One live daemon: its core-node name and its own instance id. Two daemons that
/// claim one name stay apart by their instance ids.
#[derive(Debug, PartialEq, Eq)]
pub struct CoreNodePresence {
    pub core_node: String,
    pub instance_id: String,
}

/// The presence operations of a messaging session. Each takes the names it is
/// about as the validator of wire segments left them.
pub struct CoreNodePresenceMessenger {}

impl CoreNodePresenceMessenger {
    /// What one daemon advertises. An invalid core-node name is reported before an
    /// invalid instance id.
    pub fn declare(core_node: Result<String>, instance_id: Result<String>) -> (claim: Result<
        CoreNodePresence,
    >)
        ensures
            match (core_node, instance_id) {
                (Err(error), _) => claim == Err::<CoreNodePresence, _>(error),
                (Ok(_), Err(error)) => claim == Err::<CoreNodePresence, _>(error),
                (Ok(core_node), Ok(instance_id)) => claim matches Ok(claim) && claim.core_node
                    == core_node && claim.instance_id == instance_id,
            },
    {
        match core_node {
            Err(error) => Err(error),
            Ok(core_node) => match instance_id {
                Err(error) => Err(error),
                Ok(instance_id) => Ok(CoreNodePresence { core_node, instance_id }),
            },
        }
    }

    /// Which core-node name is watched.
    pub fn watch(core_node: Result<String>) -> (filter: Result<Option<String>>)
        ensures
            match core_node {
                Err(error) => filter == Err::<Option<String>, _>(error),
                Ok(core_node) => filter == Ok::<Option<String>, crate::error::Error>(Some(core_node)),
            },
    {
        match core_node {
            Err(error) => Err(error),
            Ok(core_node) => Ok(Some(core_node)),
        }
    }

    /// Which core-node name a listing is restricted to, if any.
    pub fn list_live(core_node: Option<Result<String>>) -> (filter: Result<Option<String>>)
        ensures
            match core_node {
                None => filter == Ok::<Option<String>, crate::error::Error>(None),
                Some(Err(error)) => filter == Err::<Option<String>, _>(error),
                Some(Ok(core_node)) => filter == Ok::<Option<String>, crate::error::Error>(
                    Some(core_node),
                ),
            },
    {
        match core_node {
            None => Ok(None),
            Some(core_node) => Self::watch(core_node),
        }
    }
}

} // verus!
