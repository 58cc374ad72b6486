//! The verified core of a robotics node library: the wire envelopes of actions,
//! the concurrent-action engine, service budgets, producer discovery, topic
//! merging, pairing and observation slots, and the node's startup processor.
//!
//! Every function here is pure logic over plain values. The transport, the
//! clock and the task scheduler live with the caller.
pub mod text;
pub mod sorted_map;
pub mod cardinality;
pub mod error;
pub mod payload;
pub mod utf8;
pub mod envelope;
pub mod cancel_ack;
pub mod tombstones;
pub mod engine;
pub mod action_server;
pub mod action_laws;
pub mod message;
pub mod producer;
pub mod filter;
pub mod bound_set;
pub mod observation;
pub mod pairing;
pub mod topics;
pub mod slot_stream;
pub mod short_id;
pub mod services;
pub mod discovery;
pub mod feedback;
pub mod liveliness;
pub mod action_client;
pub mod goal;
pub mod engine_laws;
pub mod config;
pub mod standalone;
pub mod slot_setup;
pub mod processor;
pub mod endpoints;
pub mod presence;
pub mod lifecycle;
