//! The node lifecycle: a single node in the network, awaiting its startup
//! handshake, then running the receive loop, then stopped.
//!
//! The lifecycle is a state machine. Each decoded input becomes an [`Event`];
//! [`Node::on_event`] takes the transition given by [`step`] and returns the
//! [`Action`] the surrounding program must perform: write the handshake
//! acknowledgment line, deliver a message to the workload handler, abort
//! startup, or stop reading. The node also guards the writer: lines can be
//! drained from the outbox only once the handshake has completed, which is
//! what keeps any output from preceding the handshake acknowledgment.

use vstd::prelude::*;

use crate::message::deferrable_id::Id;
use crate::message::outbox::drain_spec;
use crate::message::outbox::empty_outbox;
use crate::message::outbox::inv_v;
use crate::message::outbox::resolve_id;
use crate::message::outbox::Outbox;
use crate::message::outbox::OutboxView;
use crate::message::Message;
use crate::message::MessageId;
use crate::message::MessageView;
use crate::wire::encode_line;
use crate::wire::render_line;

verus! {

/// The lifecycle phase of a node.
#[derive(Debug, Clone, Copy, PartialEq, Eq, Structural)]
pub enum Phase {
    /// Startup: the only acceptable input is the identity-assigning handshake.
    AwaitingInit,
    /// The handshake completed; inbound messages go to the workload handler.
    Running,
    /// End of input or a protocol breach; nothing more is dispatched.
    Stopped,
}

/// The identity assignment carried by the startup handshake: who sent it,
/// its message id (to be answered), this node's id, and the full peer list.
#[derive(Debug)]
pub struct InitInfo {
    pub src: String,
    pub msg_id: Id<MessageId>,
    pub node_id: String,
    pub node_ids: Vec<String>,
}

/// The mathematical value of an identity assignment.
#[verifier::ext_equal]
pub struct InitInfoView {
    pub src: Seq<char>,
    pub msg_id: Id<MessageId>,
    pub node_id: Seq<char>,
    pub node_ids: Seq<Seq<char>>,
}

impl View for InitInfo {
    type V = InitInfoView;

    open spec fn view(&self) -> InitInfoView {
        InitInfoView {
            src: self.src@,
            msg_id: self.msg_id,
            node_id: self.node_id@,
            node_ids: self.node_ids.deep_view(),
        }
    }
}

/// One decoded unit of input, as the receive loop sees it.
#[derive(Debug)]
pub enum Event {
    /// A well-formed handshake message.
    Init(InitInfo),
    /// Any other well-formed message.
    Inbound(Message<String>),
    /// A line that does not parse against the expected schema.
    Malformed,
    /// The input stream ended.
    Eof,
}

/// The mathematical value of an input event.
#[verifier::ext_equal]
pub enum EventView {
    Init(InitInfoView),
    Inbound(MessageView),
    Malformed,
    Eof,
}

impl View for Event {
    type V = EventView;

    open spec fn view(&self) -> EventView {
        match self {
            Event::Init(i) => EventView::Init(i@),
            Event::Inbound(m) => EventView::Inbound(m@),
            Event::Malformed => EventView::Malformed,
            Event::Eof => EventView::Eof,
        }
    }
}

/// What the surrounding program must do after a lifecycle transition.
#[derive(Debug)]
pub enum Action {
    /// Write this line to the output stream, before anything else.
    Emit(String),
    /// Hand this message to the workload handler.
    Deliver(Message<String>),
    /// A protocol breach during startup: abort, nothing useful can run.
    Fatal,
    /// Stop reading; drain what is already queued and let tasks finish.
    Halt,
    /// Nothing to do (input after the node stopped).
    Idle,
}

/// The mathematical value of an action.
#[verifier::ext_equal]
pub enum ActionView {
    Emit(Seq<char>),
    Deliver(MessageView),
    Fatal,
    Halt,
    Idle,
}

impl View for Action {
    type V = ActionView;

    open spec fn view(&self) -> ActionView {
        match self {
            Action::Emit(line) => ActionView::Emit(line@),
            Action::Deliver(m) => ActionView::Deliver(m@),
            Action::Fatal => ActionView::Fatal,
            Action::Halt => ActionView::Halt,
            Action::Idle => ActionView::Idle,
        }
    }
}

/// A single node in the network.
pub struct Node {
    /// Where in its lifecycle the node stands.
    pub phase: Phase,
    /// This node's own id; empty until the handshake assigns it.
    pub node_id: String,
    /// The peer list learned from the handshake.
    pub peers: Vec<String>,
    /// The outbound dispatcher.
    pub outbox: Outbox,
    /// Every line the node has released for writing, in release order.
    pub emitted: Ghost<Seq<Seq<char>>>,
}

/// The mathematical value of a node.
#[verifier::ext_equal]
pub struct NodeView {
    pub phase: Phase,
    pub node_id: Seq<char>,
    pub peers: Seq<Seq<char>>,
    pub outbox: OutboxView,
    pub emitted: Seq<Seq<char>>,
}

impl View for Node {
    type V = NodeView;

    open spec fn view(&self) -> NodeView {
        NodeView {
            phase: self.phase,
            node_id: self.node_id@,
            peers: self.peers.deep_view(),
            outbox: self.outbox@,
            emitted: self.emitted@,
        }
    }
}

/// The body text of the handshake acknowledgment.
pub open spec fn init_ok_payload() -> Seq<char> {
    seq!['"', 't', 'y', 'p', 'e', '"', ':', '"', 'i', 'n', 'i', 't', '_', 'o', 'k', '"']
}

/// The handshake acknowledgment line for an identity assignment: sent from
/// the assigned node id back to the handshake's source, answering the
/// handshake's message id, with message id 0 (ordinary allocation starts at 1).
pub open spec fn init_ok_line(i: InitInfoView) -> Seq<char> {
    encode_line(i.node_id, i.src, init_ok_payload(), Some(0u64), resolve_id(i.msg_id, None))
}

/// A node as it starts: awaiting the handshake, no identity, an empty
/// dispatcher whose allocator starts at 1, nothing written.
pub open spec fn initial_node() -> NodeView {
    NodeView {
        phase: Phase::AwaitingInit,
        node_id: Seq::empty(),
        peers: Seq::empty(),
        outbox: empty_outbox(1),
        emitted: Seq::empty(),
    }
}

/// The lifecycle transition relation: for a phase and an input event, the
/// next node state and the action the surrounding program must perform.
///
/// While awaiting the handshake, the handshake assigns the identity and its
/// acknowledgment is released as the very first line; anything else is a
/// fatal protocol breach that produces no output. While running, well-formed
/// messages are delivered to the handler; end of input or a malformed line
/// stops the node (what is already queued may still drain). A stopped node
/// reacts to nothing.
pub open spec fn step(s: NodeView, ev: EventView) -> (NodeView, ActionView) {
    match s.phase {
        Phase::AwaitingInit => match ev {
            EventView::Init(i) => {
                let line = init_ok_line(i);
                (
                    NodeView {
                        phase: Phase::Running,
                        node_id: i.node_id,
                        peers: i.node_ids,
                        emitted: s.emitted.push(line),
                        ..s
                    },
                    ActionView::Emit(line),
                )
            },
            _ => (NodeView { phase: Phase::Stopped, ..s }, ActionView::Fatal),
        },
        Phase::Running => match ev {
            EventView::Inbound(m) => (s, ActionView::Deliver(m)),
            _ => (NodeView { phase: Phase::Stopped, ..s }, ActionView::Halt),
        },
        Phase::Stopped => (s, ActionView::Idle),
    }
}

/// Well-formedness of a node: the dispatcher is well-formed, and until the
/// handshake completes nothing has been enqueued and nothing released for
/// writing.
pub open spec fn inv_n(s: NodeView) -> bool {
    &&& inv_v(s.outbox)
    &&& s.phase is AwaitingInit ==> {
        &&& s.emitted == Seq::<Seq<char>>::empty()
        &&& s.outbox.history == Seq::<MessageView>::empty()
    }
}

impl Node {
    /// Well-formedness of the node.
    pub open spec fn inv(&self) -> bool {
        inv_n(self@)
    }

    /// Create a node awaiting its startup handshake.
    pub fn new() -> (r: Self)
        ensures
            r.inv(),
            r@ == initial_node(),
    {
        let r = Node {
            phase: Phase::AwaitingInit,
            node_id: String::new(),
            peers: Vec::new(),
            outbox: Outbox::new(1),
            emitted: Ghost(Seq::empty()),
        };
        proof {
            assert(r@.peers =~= Seq::<Seq<char>>::empty());
            assert(r@ =~= initial_node());
        }
        r
    }

    /// Feed one decoded input event to the lifecycle and take its transition.
    pub fn on_event(&mut self, ev: Event) -> (a: Action)
        requires
            old(self).inv(),
        ensures
            final(self).inv(),
            final(self)@ == step(old(self)@, ev@).0,
            a@ == step(old(self)@, ev@).1,
    {
        let ghost s0 = self@;
        match self.phase {
            Phase::AwaitingInit => match ev {
                Event::Init(info) => {
                    proof {
                        reveal_strlit("\"type\":\"init_ok\"");
                        assert("\"type\":\"init_ok\""@ =~= init_ok_payload());
                    }
                    let in_reply_to: Option<MessageId> = info.msg_id.into_option();
                    let line = render_line(
                        info.node_id.as_str(),
                        info.src.as_str(),
                        "\"type\":\"init_ok\"",
                        Some(0),
                        in_reply_to,
                    );
                    self.node_id = info.node_id;
                    self.peers = info.node_ids;
                    self.phase = Phase::Running;
                    proof {
                        self.emitted@ = self.emitted@.push(line@);
                        assert(self@ =~= step(s0, ev@).0);
                    }
                    Action::Emit(line)
                },
                _ => {
                    self.phase = Phase::Stopped;
                    proof {
                        assert(self@ =~= step(s0, ev@).0);
                    }
                    Action::Fatal
                },
            },
            Phase::Running => match ev {
                Event::Inbound(m) => Action::Deliver(m),
                _ => {
                    self.phase = Phase::Stopped;
                    proof {
                        assert(self@ =~= step(s0, ev@).0);
                    }
                    Action::Halt
                },
            },
            Phase::Stopped => Action::Idle,
        }
    }

    /// The writer's step, guarded by the lifecycle: once the handshake has
    /// completed (and only then), take the oldest queued message, resolve
    /// its deferred fields, and release it as one encoded line. This guard is
    /// what keeps every queued message behind the handshake acknowledgment.
    pub fn drain_one(&mut self) -> (r: Option<String>)
        requires
            old(self).inv(),
            !(old(self)@.phase is AwaitingInit),
            old(self)@.outbox.next_id < u64::MAX,
        ensures
            final(self).inv(),
            final(self)@.phase == old(self)@.phase,
            final(self)@.node_id == old(self)@.node_id,
            final(self)@.peers == old(self)@.peers,
            final(self)@.outbox == drain_spec(old(self)@.outbox, old(self)@.node_id).0,
            match r {
                None => {
                    &&& old(self)@.outbox.queue.len() == 0
                    &&& final(self)@.emitted == old(self)@.emitted
                },
                Some(line) => {
                    &&& drain_spec(old(self)@.outbox, old(self)@.node_id).1 == Some(line@)
                    &&& final(self)@.emitted == old(self)@.emitted.push(line@)
                },
            },
    {
        let r = self.outbox.drain_one(&self.node_id);
        match r {
            Some(line) => {
                proof {
                    self.emitted@ = self.emitted@.push(line@);
                }
                Some(line)
            },
            None => None,
        }
    }
}

/// Running a whole event sequence through the lifecycle.
pub open spec fn run_steps(s: NodeView, evs: Seq<EventView>) -> NodeView
    decreases evs.len(),
{
    if evs.len() == 0 {
        s
    } else {
        run_steps(step(s, evs[0]).0, evs.skip(1))
    }
}

/// Handshake guard, startup half: a node that never receives the handshake
/// releases no output, whatever else arrives.
pub proof fn lemma_no_output_before_init(evs: Seq<EventView>)
    requires
        forall|i: int| 0 <= i < evs.len() ==> !((#[trigger] evs[i]) is Init),
    ensures
        run_steps(initial_node(), evs).emitted == Seq::<Seq<char>>::empty(),
{
    lemma_guard_helper(initial_node(), evs);
}

proof fn lemma_guard_helper(s: NodeView, evs: Seq<EventView>)
    requires
        s.emitted == Seq::<Seq<char>>::empty(),
        s.phase is AwaitingInit || s.phase is Stopped,
        forall|i: int| 0 <= i < evs.len() ==> !((#[trigger] evs[i]) is Init),
    ensures
        run_steps(s, evs).emitted == Seq::<Seq<char>>::empty(),
    decreases evs.len(),
{
    if evs.len() > 0 {
        let s1 = step(s, evs[0]).0;
        assert(forall|i: int| 0 <= i < evs.skip(1).len() ==> !((#[trigger] evs.skip(1)[i]) is Init));
        lemma_guard_helper(s1, evs.skip(1));
    }
}

/// Handshake guard, breach half: any message received before the handshake
/// other than the handshake itself makes startup fail without producing
/// output.
pub proof fn lemma_pre_init_breach_is_fatal(s: NodeView, ev: EventView)
    requires
        inv_n(s),
        s.phase is AwaitingInit,
        !(ev is Init),
    ensures
        step(s, ev).0.phase is Stopped,
        step(s, ev).0.emitted == Seq::<Seq<char>>::empty(),
        step(s, ev).1 is Fatal,
{
}

/// Handshake guard, acknowledgment half: the first line a node ever
/// releases is the handshake acknowledgment, and it is released at the very
/// transition that completes the handshake.
pub proof fn lemma_first_output_is_handshake_ack(s: NodeView, i: InitInfoView)
    requires
        inv_n(s),
        s.phase is AwaitingInit,
    ensures
        step(s, EventView::Init(i)).0.emitted == seq![init_ok_line(i)],
        step(s, EventView::Init(i)).1 == ActionView::Emit(init_ok_line(i)),
{
    assert(step(s, EventView::Init(i)).0.emitted =~= seq![init_ok_line(i)]);
}

} // verus!
