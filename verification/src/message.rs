//! The message model: an immutable envelope (source, destination) around a
//! body, which carries the workload payload plus the two correlation id
//! fields (`msg_id` and `in_reply_to`).
//!
//! The runtime never inspects the payload; it only reads and writes the two
//! id fields. For the runtime itself the payload is the already-rendered JSON
//! text of the body's workload fields; the envelope and id fields are encoded
//! around it by the line writer.

use vstd::prelude::*;

pub mod deferrable_id;
pub mod outbox;

use deferrable_id::Id;

verus! {

/// A message identifier: opaque, process-local, strictly increasing; unique
/// only within the emitting node's outbound stream, not globally.
pub type MessageId = u64;

/// All messages comprise of a source node, destination node, and body.
#[derive(Debug)]
pub struct Message<T> {
    /// Source node id. Left empty on construction; the writer stamps the
    /// sending node's id on every outbound message just before encoding.
    pub src: String,
    /// Destination node id.
    pub dest: String,
    /// The message body.
    pub body: Body<T>,
}

/// A message body: the workload payload plus the two correlation id fields.
#[derive(Debug)]
pub struct Body<T> {
    /// The workload payload; the runtime never reads its contents.
    pub payload: T,
    /// This message's own id: absent, present, or allocated by the writer.
    pub msg_id: Id<MessageId>,
    /// For replies, the id of the message being answered; otherwise absent.
    pub in_reply_to: Id<MessageId>,
}

impl<T> Message<T> {
    /// Create a new message. The source field is filled in on send.
    pub fn new(dest: String, body: Body<T>) -> (r: Self)
        ensures
            r.src@ == Seq::<char>::empty(),
            r.dest == dest,
            r.body == body,
    {
        Message { src: String::new(), dest, body }
    }

    /// Get a reference to the message source id.
    pub fn src(&self) -> (r: &str)
        ensures
            r@ == self.src@,
    {
        self.src.as_str()
    }

    /// Get a reference to the message destination id.
    pub fn dest(&self) -> (r: &str)
        ensures
            r@ == self.dest@,
    {
        self.dest.as_str()
    }

    /// Get a reference to the message body.
    pub fn body(&self) -> (r: &Body<T>)
        ensures
            r == &self.body,
    {
        &self.body
    }
}

impl<T> Body<T> {
    /// Create a new body.
    pub fn new(payload: T, msg_id: Id<MessageId>, in_reply_to: Id<MessageId>) -> (r: Self)
        ensures
            r.payload == payload,
            r.msg_id == msg_id,
            r.in_reply_to == in_reply_to,
    {
        Body { payload, msg_id, in_reply_to }
    }

    /// Get a reference to the payload, which contains all workload fields.
    pub fn payload(&self) -> (r: &T)
        ensures
            r == &self.payload,
    {
        &self.payload
    }
}

/// The mathematical value of a body whose payload is rendered JSON text.
#[verifier::ext_equal]
pub struct BodyView {
    pub payload: Seq<char>,
    pub msg_id: Id<MessageId>,
    pub in_reply_to: Id<MessageId>,
}

/// The mathematical value of a runtime message.
#[verifier::ext_equal]
pub struct MessageView {
    pub src: Seq<char>,
    pub dest: Seq<char>,
    pub body: BodyView,
}

impl View for Body<String> {
    type V = BodyView;

    open spec fn view(&self) -> BodyView {
        BodyView { payload: self.payload@, msg_id: self.msg_id, in_reply_to: self.in_reply_to }
    }
}

impl View for Message<String> {
    type V = MessageView;

    open spec fn view(&self) -> MessageView {
        MessageView { src: self.src@, dest: self.dest@, body: self.body@ }
    }
}

/// Copy a runtime message, preserving its value exactly. Retransmissions of
/// an RPC reuse this so every retry carries the same id and payload.
pub fn duplicate_message(m: &Message<String>) -> (r: Message<String>)
    ensures
        r@ == m@,
{
    Message {
        src: m.src.clone(),
        dest: m.dest.clone(),
        body: Body { payload: m.body.payload.clone(), msg_id: m.body.msg_id, in_reply_to: m.body.in_reply_to },
    }
}

} // verus!
