//! A verified model of a multi-client line-broadcast relay.
//!
//! Any line a connected client sends is forwarded verbatim to every other
//! currently-connected client, excluding the sender. The library holds the
//! relay's logic: the message type, the broadcast bus with its bounded
//! per-subscriber queues (drop-oldest on overflow), and the per-connection
//! decision functions for the ingress, egress and listener loops. The
//! asynchronous socket plumbing around it lives outside the library.

pub mod bus;
pub mod handler;
pub mod listener;
pub mod message;
pub mod queue;
