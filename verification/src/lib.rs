//! Runtime substrate for nodes in a line-oriented distributed-systems test
//! harness: a tri-state deferred-id model, an immutable message envelope,
//! a unique message-id allocator, a JSON line encoder, an outbound dispatcher
//! with at-least-once RPC bookkeeping, and the node lifecycle state machine.
//!
//! The runtime never interprets workload payloads: inside the runtime a
//! payload is the rendered JSON text of the body's workload fields, carried
//! verbatim. The surrounding program decodes input lines into [`node::Event`]
//! values and performs the [`node::Action`] each lifecycle transition
//! returns; everything the runtime decides — ids, correlation, retransmission,
//! write order, handshake ordering — is specified and proved here.

pub mod idgen;
pub mod message;
pub mod node;
pub mod wire;
pub mod workload;

pub use message::deferrable_id::Id;
pub use message::MessageId;
pub use message::outbox::Outbox;
pub use message::Body;
pub use message::BodyView;
pub use message::Message;
pub use message::MessageView;
pub use node::Node;
pub use workload::Workload;
