//! A received message: what was published, and by whom.
use crate::payload::Payload;
use vstd::prelude::*;

verus! {

/// A message as the wire delivers it, with its publisher's address.
pub struct Message {
    core_node: String,
    instance_id: String,
    link_id: String,
    payload: Payload,
}

/// The view of a [`Message`].
pub struct MessageView {
    pub core_node: Seq<char>,
    pub instance_id: Seq<char>,
    pub link_id: Seq<char>,
    pub payload: Seq<u8>,
}

impl View for Message {
    type V = MessageView;

    closed spec fn view(&self) -> MessageView {
        MessageView {
            core_node: self.core_node@,
            instance_id: self.instance_id@,
            link_id: self.link_id@,
            payload: self.payload@,
        }
    }
}

impl Message {
    /// The message `payload` published by `(core_node, instance_id)` under
    /// `link_id`.
    pub fn new(core_node: String, instance_id: String, link_id: String, payload: Payload) -> (message:
        Self)
        ensures
            message@ == (MessageView {
                core_node: core_node@,
                instance_id: instance_id@,
                link_id: link_id@,
                payload: payload@,
            }),
    {
        Message { core_node, instance_id, link_id, payload }
    }

    /// The publisher's core node.
    pub fn core_node(&self) -> (core_node: &str)
        ensures
            core_node@ == self@.core_node,
    {
        self.core_node.as_str()
    }

    /// The publisher's instance id.
    pub fn instance_id(&self) -> (instance_id: &str)
        ensures
            instance_id@ == self@.instance_id,
    {
        self.instance_id.as_str()
    }

    /// The producer-side link id the message was published under.
    pub fn link_id(&self) -> (link_id: &str)
        ensures
            link_id@ == self@.link_id,
    {
        self.link_id.as_str()
    }

    /// The published payload.
    pub fn payload(&self) -> (payload: &Payload)
        ensures
            payload@ == self@.payload,
    {
        &self.payload
    }

    /// The published bytes.
    pub fn payload_bytes(&self) -> (bytes: &[u8])
        ensures
            bytes@ == self@.payload,
    {
        self.payload.as_slice()
    }
}

} // verus!
