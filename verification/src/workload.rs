//! The workload handler contract: the pluggable boundary between the node
//! runtime and the behaviour under test (echo, id generation, gossip, ...).
//! The runtime never interprets payloads; it hands each inbound message to
//! the active workload, which decides what, if anything, to send back.

use vstd::prelude::*;

use crate::message::Message;
use crate::node::Node;

verus! {

/// Trait defining how a node completes a given workload, responding to the
/// node's incoming messages.
pub trait Workload {
    /// Called once per inbound message delivered by the running node; may
    /// issue any number of outbox operations through the node — they do not
    /// have to be 1:1 replies. Implementations must leave the node
    /// well-formed and must not change its lifecycle phase.
    fn handle(&mut self, recv: Message<String>, node: &mut Node)
        requires
            old(node).inv(),
            old(node)@.phase is Running,
        ensures
            final(node).inv(),
            final(node)@.phase == old(node)@.phase,
    ;
}

} // verus!
