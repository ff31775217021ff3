//! The outbound dispatcher: the component handlers use to emit messages.
//!
//! It owns the identifier allocator, the ordered write queue, and the
//! in-flight RPC registry. Every operation is one state transition, given
//! here both as a specification function over the dispatcher's mathematical
//! value and as the executable operation proved to implement it. The
//! surrounding program performs each operation inside one exclusive critical
//! section and runs one retry task per outstanding RPC; the writer task
//! drains the queue in order and owns the output stream exclusively.

use vstd::prelude::*;

use crate::idgen::MsgIdAlloc;
use crate::message::deferrable_id::Id;
use crate::message::duplicate_message;
use crate::message::Body;
use crate::message::BodyView;
use crate::message::Message;
use crate::message::MessageId;
use crate::message::MessageView;
use crate::wire::encode_line;
use crate::wire::render_line;

verus! {

/// One outstanding RPC: its correlation key (destination node and message
/// id) plus the exact message to retransmit until acknowledged.
pub struct InFlight {
    pub dest: String,
    pub msg_id: MessageId,
    pub message: Message<String>,
}

/// The mathematical value of an in-flight registry entry.
#[verifier::ext_equal]
pub struct FlightView {
    pub dest: Seq<char>,
    pub msg_id: MessageId,
    pub message: MessageView,
}

impl View for InFlight {
    type V = FlightView;

    open spec fn view(&self) -> FlightView {
        FlightView { dest: self.dest@, msg_id: self.msg_id, message: self.message@ }
    }
}

/// The mathematical value of the dispatcher: the allocator state, the
/// in-flight registry, the undrained write queue, and the full enqueue
/// history (drained messages included, in enqueue order).
#[verifier::ext_equal]
pub struct OutboxView {
    pub next_id: u64,
    pub issued: Seq<u64>,
    pub in_flight: Seq<FlightView>,
    pub queue: Seq<MessageView>,
    pub history: Seq<MessageView>,
}

/// The outbound dispatcher.
pub struct Outbox {
    /// Allocator for this node's outbound message ids.
    pub alloc: MsgIdAlloc,
    /// The outstanding RPCs, in registration order.
    pub in_flight: Vec<InFlight>,
    /// Messages enqueued for writing and not yet drained, in enqueue order.
    pub queue: Vec<Message<String>>,
    /// Every message ever enqueued, in enqueue order.
    pub history: Ghost<Seq<MessageView>>,
}

impl View for Outbox {
    type V = OutboxView;

    open spec fn view(&self) -> OutboxView {
        OutboxView {
            next_id: self.alloc.counter,
            issued: self.alloc.issued@,
            in_flight: self.in_flight@.map_values(|e: InFlight| e@),
            queue: self.queue@.map_values(|m: Message<String>| m@),
            history: self.history@,
        }
    }
}

/// A fresh dispatcher: nothing registered, nothing queued, nothing written,
/// with the allocator about to hand out `first_msg_id`.
pub open spec fn empty_outbox(first_msg_id: MessageId) -> OutboxView {
    OutboxView {
        next_id: first_msg_id,
        issued: Seq::empty(),
        in_flight: Seq::empty(),
        queue: Seq::empty(),
        history: Seq::empty(),
    }
}

/// Whether a registry entry carries the given correlation key.
pub open spec fn flight_key_matches(e: FlightView, dest: Seq<char>, msg_id: MessageId) -> bool {
    e.dest == dest && e.msg_id == msg_id
}

/// Whether the registry holds an entry for the given correlation key.
pub open spec fn has_key(s: OutboxView, dest: Seq<char>, msg_id: MessageId) -> bool {
    exists|i: int|
        0 <= i < s.in_flight.len() && flight_key_matches(#[trigger] s.in_flight[i], dest, msg_id)
}

/// The registered message for a correlation key the registry holds.
pub open spec fn flight_message(s: OutboxView, dest: Seq<char>, msg_id: MessageId) -> MessageView {
    let i = choose|i: int|
        0 <= i < s.in_flight.len() && flight_key_matches(#[trigger] s.in_flight[i], dest, msg_id);
    s.in_flight[i].message
}

/// Well-formedness of the dispatcher state.
///
/// The allocator record is strictly increasing and below the counter; every
/// registered id was allocated (so lies below the counter) and registered
/// ids are pairwise distinct, which makes each correlation key unique; each
/// registry entry stores the very message it keys; and the queue is exactly
/// the undrained suffix of the enqueue history.
pub open spec fn inv_v(s: OutboxView) -> bool {
    &&& forall|i: int| 0 <= i < s.issued.len() ==> #[trigger] s.issued[i] < s.next_id
    &&& forall|i: int, j: int|
        0 <= i < j < s.issued.len() ==> #[trigger] s.issued[i] < #[trigger] s.issued[j]
    &&& forall|i: int|
        0 <= i < s.in_flight.len() ==> (#[trigger] s.in_flight[i]).msg_id < s.next_id
    &&& forall|i: int, j: int|
        0 <= i < j < s.in_flight.len()
            ==> (#[trigger] s.in_flight[i]).msg_id != (#[trigger] s.in_flight[j]).msg_id
    &&& forall|i: int|
        0 <= i < s.in_flight.len() ==> {
            let e = #[trigger] s.in_flight[i];
            e.message.dest == e.dest && e.message.body.msg_id == Id::Known(Some(e.msg_id))
        }
    &&& s.queue.len() <= s.history.len()
    &&& s.queue == s.history.subrange(
        s.history.len() - s.queue.len(),
        s.history.len() as int,
    )
}

/// The reply built for a subject message: addressed back to the subject's
/// source, correlated to the subject's id, its own id left for the writer.
pub open spec fn reply_message(subject: MessageView, payload: Seq<char>) -> MessageView {
    MessageView {
        src: Seq::empty(),
        dest: subject.src,
        body: BodyView { payload, msg_id: Id::Defer, in_reply_to: subject.body.msg_id },
    }
}

/// A fire-and-forget message: no id of its own, not a reply.
pub open spec fn send_message(dest: Seq<char>, payload: Seq<char>) -> MessageView {
    MessageView {
        src: Seq::empty(),
        dest,
        body: BodyView { payload, msg_id: Id::Known(None), in_reply_to: Id::Known(None) },
    }
}

/// An RPC request: carries the allocated id `k`, not a reply.
pub open spec fn rpc_message(dest: Seq<char>, payload: Seq<char>, k: MessageId) -> MessageView {
    MessageView {
        src: Seq::empty(),
        dest,
        body: BodyView { payload, msg_id: Id::Known(Some(k)), in_reply_to: Id::Known(None) },
    }
}

/// Appending a message to the write queue (and so to the history).
pub open spec fn enqueue_spec(s: OutboxView, m: MessageView) -> OutboxView {
    OutboxView { queue: s.queue.push(m), history: s.history.push(m), ..s }
}

/// The `reply` transition: a no-op when the subject carries no id (there is
/// no one expecting a reply), otherwise one enqueue of the reply message.
pub open spec fn reply_spec(s: OutboxView, subject: MessageView, payload: Seq<char>) -> OutboxView {
    if subject.body.msg_id.is_present() {
        enqueue_spec(s, reply_message(subject, payload))
    } else {
        s
    }
}

/// The `send` transition: one enqueue, no correlation tracking.
pub open spec fn send_spec(s: OutboxView, dest: Seq<char>, payload: Seq<char>) -> OutboxView {
    enqueue_spec(s, send_message(dest, payload))
}

/// The `rpc` transition: allocate an id immediately (retransmissions must
/// reuse it), register the message under its correlation key, and enqueue
/// the first attempt.
pub open spec fn rpc_spec(s: OutboxView, dest: Seq<char>, payload: Seq<char>) -> (OutboxView, MessageId) {
    let k = s.next_id;
    let m = rpc_message(dest, payload, k);
    let s2 = OutboxView {
        next_id: (s.next_id + 1) as u64,
        issued: s.issued.push(k),
        in_flight: s.in_flight.push(FlightView { dest, msg_id: k, message: m }),
        ..s
    };
    (enqueue_spec(s2, m), k)
}

/// The `ack` transition: when the message answers a registered RPC (its
/// source and `in_reply_to` form a registered correlation key), remove that
/// entry; in every other case — no id, a late or duplicate acknowledgment,
/// an unknown key — change nothing.
pub open spec fn ack_spec(s: OutboxView, m: MessageView) -> OutboxView {
    match m.body.in_reply_to {
        Id::Known(Some(k)) => if has_key(s, m.src, k) {
            let i = choose|i: int|
                0 <= i < s.in_flight.len() && flight_key_matches(
                    #[trigger] s.in_flight[i],
                    m.src,
                    k,
                );
            OutboxView { in_flight: s.in_flight.remove(i), ..s }
        } else {
            s
        },
        _ => s,
    }
}

/// One retry period elapsing for an RPC: while its key is still registered,
/// re-enqueue the identical registered message; once acknowledged, nothing.
pub open spec fn retry_spec(s: OutboxView, dest: Seq<char>, msg_id: MessageId) -> OutboxView {
    if has_key(s, dest, msg_id) {
        enqueue_spec(s, flight_message(s, dest, msg_id))
    } else {
        s
    }
}

/// A deferred field resolved by the writer: a decided field keeps its value,
/// a deferred one takes the fallback.
pub open spec fn resolve_id(id: Id<MessageId>, fallback: Option<MessageId>) -> Option<MessageId> {
    match id {
        Id::Known(v) => v,
        Id::Defer => fallback,
    }
}

/// The writer taking one message off the queue: the head's deferred message
/// id (if any) is resolved from the allocator, a deferred `in_reply_to`
/// resolves to absent, the node's own id is stamped as the source, and the
/// message becomes one encoded line.
pub open spec fn drain_spec(s: OutboxView, node_id: Seq<char>) -> (OutboxView, Option<Seq<char>>) {
    if s.queue.len() == 0 {
        (s, None)
    } else {
        let m = s.queue[0];
        let line = encode_line(
            node_id,
            m.dest,
            m.body.payload,
            resolve_id(m.body.msg_id, Some(s.next_id)),
            resolve_id(m.body.in_reply_to, None),
        );
        let s2 = OutboxView {
            next_id: if m.body.msg_id is Defer {
                (s.next_id + 1) as u64
            } else {
                s.next_id
            },
            issued: if m.body.msg_id is Defer {
                s.issued.push(s.next_id)
            } else {
                s.issued
            },
            queue: s.queue.skip(1),
            ..s
        };
        (s2, Some(line))
    }
}

/// Applying `n` retry periods to one correlation key.
pub open spec fn retry_n(s: OutboxView, dest: Seq<char>, msg_id: MessageId, n: nat) -> OutboxView
    decreases n,
{
    if n == 0 {
        s
    } else {
        retry_spec(retry_n(s, dest, msg_id, (n - 1) as nat), dest, msg_id)
    }
}

/// The dispatcher state after the writer has drained `n` messages.
pub open spec fn drain_n(s: OutboxView, node_id: Seq<char>, n: nat) -> OutboxView
    decreases n,
{
    if n == 0 {
        s
    } else {
        drain_spec(drain_n(s, node_id, (n - 1) as nat), node_id).0
    }
}

/// The lines the writer produces while draining `n` messages, in write order.
pub open spec fn drained_lines(s: OutboxView, node_id: Seq<char>, n: nat) -> Seq<Seq<char>>
    decreases n,
{
    if n == 0 {
        Seq::empty()
    } else {
        let prev = drained_lines(s, node_id, (n - 1) as nat);
        match drain_spec(drain_n(s, node_id, (n - 1) as nat), node_id).1 {
            Some(line) => prev.push(line),
            None => prev,
        }
    }
}

/// How many of the first `i` queued messages still defer their message id
/// (each of those costs the writer one fresh allocation).
pub open spec fn defers_before(q: Seq<MessageView>, i: int) -> nat
    decreases i,
{
    if i <= 0 {
        0
    } else {
        defers_before(q, i - 1) + if q[i - 1].body.msg_id is Defer {
            1nat
        } else {
            0nat
        }
    }
}

proof fn lemma_defers_before_bound(q: Seq<MessageView>, i: int)
    requires
        0 <= i,
    ensures
        defers_before(q, i) <= i,
    decreases i,
{
    if i > 0 {
        lemma_defers_before_bound(q, i - 1);
    }
}

/// Reply correlation: replying to a message carrying id `k` enqueues exactly
/// one message, correlated to `k`, addressed back to the subject's source,
/// its own id left for the writer; replying to a message that carries no id
/// enqueues nothing.
pub proof fn lemma_reply_correlation(s: OutboxView, subject: MessageView, payload: Seq<char>)
    ensures
        subject.body.msg_id.is_present() ==> {
            let m = reply_message(subject, payload);
            &&& reply_spec(s, subject, payload) == enqueue_spec(s, m)
            &&& reply_spec(s, subject, payload).history == s.history.push(m)
            &&& reply_spec(s, subject, payload).queue == s.queue.push(m)
            &&& m.body.in_reply_to == subject.body.msg_id
            &&& m.dest == subject.src
            &&& m.body.msg_id is Defer
        },
        !subject.body.msg_id.is_present() ==> reply_spec(s, subject, payload) == s,
{
}

/// When exactly one registry entry carries a key, that entry's message is
/// the registered message for the key.
proof fn lemma_flight_message_unique(sv: OutboxView, dest: Seq<char>, msg_id: MessageId, i: int)
    requires
        0 <= i < sv.in_flight.len(),
        flight_key_matches(sv.in_flight[i], dest, msg_id),
        forall|j: int|
            0 <= j < sv.in_flight.len() && flight_key_matches(
                #[trigger] sv.in_flight[j],
                dest,
                msg_id,
            ) ==> j == i,
    ensures
        has_key(sv, dest, msg_id),
        flight_message(sv, dest, msg_id) == sv.in_flight[i].message,
{
    let j = choose|j: int|
        0 <= j < sv.in_flight.len() && flight_key_matches(#[trigger] sv.in_flight[j], dest, msg_id);
    assert(j == i);
}

/// In a state whose registry equals the one an `rpc` left behind, the RPC's
/// correlation key is registered exactly once, keying the request itself.
proof fn lemma_rpc_key_registered(
    s: OutboxView,
    dest: Seq<char>,
    payload: Seq<char>,
    sv: OutboxView,
)
    requires
        inv_v(s),
        s.next_id < u64::MAX,
        sv.in_flight == rpc_spec(s, dest, payload).0.in_flight,
    ensures
        ({
            let k = rpc_spec(s, dest, payload).1;
            &&& has_key(sv, dest, k)
            &&& flight_message(sv, dest, k) == rpc_message(dest, payload, k)
        }),
{
    let k = rpc_spec(s, dest, payload).1;
    let pushed = s.in_flight.len() as int;
    assert(flight_key_matches(sv.in_flight[pushed], dest, k));
    assert forall|j: int|
        0 <= j < sv.in_flight.len() && flight_key_matches(
            #[trigger] sv.in_flight[j],
            dest,
            k,
        ) implies j == pushed by {
        if j < pushed {
            assert(s.in_flight[j].msg_id < s.next_id);
        }
    }
    lemma_flight_message_unique(sv, dest, k, pushed);
}

/// RPC retransmission, unacknowledged half: after `rpc(dest, payload)`
/// allocates id `k`, every retry period that passes without acknowledgment
/// appends one more copy of the identical request — same destination, same
/// payload, same message id `k` — to the write queue, indefinitely, and the
/// correlation key stays registered.
pub proof fn lemma_rpc_unacked_retransmits(
    s: OutboxView,
    dest: Seq<char>,
    payload: Seq<char>,
    n: nat,
)
    requires
        inv_v(s),
        s.next_id < u64::MAX,
    ensures
        ({
            let (s1, k) = rpc_spec(s, dest, payload);
            let sn = retry_n(s1, dest, k, n);
            &&& sn.in_flight == s1.in_flight
            &&& has_key(sn, dest, k)
            &&& sn.history == s1.history + Seq::new(n, |i: int| rpc_message(dest, payload, k))
        }),
    decreases n,
{
    let (s1, k) = rpc_spec(s, dest, payload);
    lemma_rpc_key_registered(s, dest, payload, s1);
    if n == 0 {
        assert(s1.history =~= s1.history + Seq::new(0, |i: int| rpc_message(dest, payload, k)));
    } else {
        lemma_rpc_unacked_retransmits(s, dest, payload, (n - 1) as nat);
        let prev = retry_n(s1, dest, k, (n - 1) as nat);
        lemma_rpc_key_registered(s, dest, payload, prev);
        let sn = retry_spec(prev, dest, k);
        assert(sn.in_flight == s1.in_flight);
        lemma_rpc_key_registered(s, dest, payload, sn);
        assert(sn.history =~= s1.history + Seq::new(n, |i: int| rpc_message(dest, payload, k)));
    }
}

/// RPC acknowledgment half: acknowledging the reply to an outstanding RPC —
/// whenever it arrives, after any number of retransmissions — removes its
/// correlation key, and from then on no retry period transmits anything.
pub proof fn lemma_ack_stops_retransmission(
    s: OutboxView,
    dest: Seq<char>,
    payload: Seq<char>,
    n: nat,
    reply: MessageView,
)
    requires
        inv_v(s),
        s.next_id < u64::MAX,
        reply.src == dest,
        reply.body.in_reply_to == Id::Known(Some(rpc_spec(s, dest, payload).1)),
    ensures
        ({
            let (s1, k) = rpc_spec(s, dest, payload);
            let sa = ack_spec(retry_n(s1, dest, k, n), reply);
            &&& !has_key(sa, dest, k)
            &&& forall|j: nat| retry_n(sa, dest, k, j) == sa
        }),
{
    let (s1, k) = rpc_spec(s, dest, payload);
    let sn = retry_n(s1, dest, k, n);
    lemma_rpc_unacked_retransmits(s, dest, payload, n);
    let sa = ack_spec(sn, reply);
    let i = choose|i: int|
        0 <= i < sn.in_flight.len() && flight_key_matches(#[trigger] sn.in_flight[i], reply.src, k);
    let pushed = s.in_flight.len() as int;
    assert(i == pushed) by {
        if i < pushed {
            assert(s.in_flight[i].msg_id < s.next_id);
        }
    }
    assert(sa.in_flight =~= s.in_flight);
    assert(!has_key(sa, dest, k)) by {
        assert forall|j: int| 0 <= j < sa.in_flight.len() implies !flight_key_matches(
            #[trigger] sa.in_flight[j],
            dest,
            k,
        ) by {
            assert(s.in_flight[j].msg_id < s.next_id);
        }
    }
    lemma_retry_absent_is_noop(sa, dest, k);
}

/// While a correlation key is not registered, retry periods change nothing.
proof fn lemma_retry_absent_is_noop(s: OutboxView, dest: Seq<char>, msg_id: MessageId)
    requires
        !has_key(s, dest, msg_id),
    ensures
        forall|j: nat| retry_n(s, dest, msg_id, j) == s,
{
    assert forall|j: nat| retry_n(s, dest, msg_id, j) == s by {
        lemma_retry_absent_is_noop_n(s, dest, msg_id, j);
    }
}

proof fn lemma_retry_absent_is_noop_n(s: OutboxView, dest: Seq<char>, msg_id: MessageId, j: nat)
    requires
        !has_key(s, dest, msg_id),
    ensures
        retry_n(s, dest, msg_id, j) == s,
    decreases j,
{
    if j > 0 {
        lemma_retry_absent_is_noop_n(s, dest, msg_id, (j - 1) as nat);
    }
}

/// Ack idempotence: acknowledging a key that is not registered (never was,
/// or already acknowledged) changes nothing, so a second acknowledgment of
/// the same key is always a no-op.
pub proof fn lemma_ack_idempotent(s: OutboxView, m: MessageView)
    requires
        inv_v(s),
    ensures
        ack_spec(ack_spec(s, m), m) == ack_spec(s, m),
        (match m.body.in_reply_to {
            Id::Known(Some(k)) => !has_key(s, m.src, k),
            _ => true,
        }) ==> ack_spec(s, m) == s,
{
    match m.body.in_reply_to {
        Id::Known(Some(k)) => {
            if has_key(s, m.src, k) {
                let i = choose|i: int|
                    0 <= i < s.in_flight.len() && flight_key_matches(
                        #[trigger] s.in_flight[i],
                        m.src,
                        k,
                    );
                let s1 = ack_spec(s, m);
                assert(s1.in_flight == s.in_flight.remove(i));
                assert(!has_key(s1, m.src, k)) by {
                    assert forall|j: int| 0 <= j < s1.in_flight.len() implies !flight_key_matches(
                        #[trigger] s1.in_flight[j],
                        m.src,
                        k,
                    ) by {
                        if j < i {
                            assert(s1.in_flight[j] == s.in_flight[j]);
                        } else {
                            assert(s1.in_flight[j] == s.in_flight[j + 1]);
                        }
                    }
                }
            }
        },
        _ => {},
    }
}

/// Write ordering: however the queued messages were enqueued, the writer
/// emits them in exactly enqueue order — the `i`-th drained line is the
/// encoding of the `i`-th queued message, with its source stamped, its
/// deferred message id (if any) resolved to the id the allocator holds at
/// that step, and a deferred `in_reply_to` resolved to absent.
pub proof fn lemma_write_order(s: OutboxView, node_id: Seq<char>, n: nat)
    requires
        n <= s.queue.len(),
        s.next_id + n <= u64::MAX,
    ensures
        drain_n(s, node_id, n).queue == s.queue.skip(n as int),
        drain_n(s, node_id, n).next_id == s.next_id + defers_before(s.queue, n as int),
        drained_lines(s, node_id, n).len() == n,
        forall|i: int|
            0 <= i < n ==> drained_lines(s, node_id, n)[i] == encode_line(
                node_id,
                s.queue[i].dest,
                s.queue[i].body.payload,
                resolve_id(
                    s.queue[i].body.msg_id,
                    Some((s.next_id + defers_before(s.queue, i)) as u64),
                ),
                resolve_id(s.queue[i].body.in_reply_to, None),
            ),
    decreases n,
{
    lemma_defers_before_bound(s.queue, n as int);
    if n == 0 {
        assert(drain_n(s, node_id, 0).queue =~= s.queue.skip(0));
    } else {
        lemma_write_order(s, node_id, (n - 1) as nat);
        lemma_defers_before_bound(s.queue, n as int - 1);
        let prev = drain_n(s, node_id, (n - 1) as nat);
        assert(prev.queue[0] == s.queue[n - 1]);
        assert(drain_n(s, node_id, n).queue =~= s.queue.skip(n as int));
    }
}

proof fn lemma_enqueue_preserves_inv(s: OutboxView, m: MessageView)
    requires
        inv_v(s),
    ensures
        inv_v(enqueue_spec(s, m)),
{
    let s2 = enqueue_spec(s, m);
    assert(s2.queue =~= s2.history.subrange(
        s2.history.len() - s2.queue.len(),
        s2.history.len() as int,
    ));
}

impl Outbox {
    /// Well-formedness of the dispatcher.
    pub open spec fn inv(&self) -> bool {
        inv_v(self@)
    }

    /// Create a new, empty dispatcher whose first allocated message id will
    /// be `first_msg_id`.
    pub fn new(first_msg_id: MessageId) -> (r: Self)
        ensures
            r.inv(),
            r@ == empty_outbox(first_msg_id),
    {
        let r = Outbox {
            alloc: MsgIdAlloc::new(first_msg_id),
            in_flight: Vec::new(),
            queue: Vec::new(),
            history: Ghost(Seq::empty()),
        };
        proof {
            assert(r@.in_flight =~= Seq::<FlightView>::empty());
            assert(r@.queue =~= Seq::<MessageView>::empty());
            assert(r@.queue =~= r@.history.subrange(
                r@.history.len() - r@.queue.len(),
                r@.history.len() as int,
            ));
            assert(r@ =~= empty_outbox(first_msg_id));
        }
        r
    }

    /// Append a fully-formed message to the write queue.
    fn enqueue(&mut self, m: Message<String>)
        requires
            old(self).inv(),
        ensures
            final(self).inv(),
            final(self)@ == enqueue_spec(old(self)@, m@),
    {
        let ghost m_v = m@;
        let ghost s0 = self@;
        proof {
            self.history@ = self.history@.push(m_v);
        }
        self.queue.push(m);
        proof {
            assert(self@.queue =~= s0.queue.push(m_v));
            assert(self@ =~= enqueue_spec(s0, m_v));
            lemma_enqueue_preserves_inv(s0, m_v);
        }
    }

    /// Send a single, non-retried reply to a subject message.
    ///
    /// The reply is addressed to the subject's source and correlated to the
    /// subject's message id; its own id is left deferred and resolved by the
    /// writer. When the subject carries no message id this is a no-op: there
    /// is no one expecting a reply.
    pub fn reply(&mut self, subject: &Message<String>, payload: String)
        requires
            old(self).inv(),
        ensures
            final(self).inv(),
            final(self)@ == reply_spec(old(self)@, subject@, payload@),
    {
        match subject.body.msg_id {
            Id::Known(Some(_)) => {
                let m = Message {
                    src: String::new(),
                    dest: subject.src.clone(),
                    body: Body {
                        payload,
                        msg_id: Id::Defer,
                        in_reply_to: subject.body.msg_id,
                    },
                };
                proof {
                    assert(m@ =~= reply_message(subject@, payload@));
                }
                self.enqueue(m);
            },
            _ => {},
        }
    }

    /// Send a single, non-retried message which cannot be replied to: both
    /// id fields are explicitly absent and no correlation entry is made.
    pub fn send(&mut self, dest: String, payload: String)
        requires
            old(self).inv(),
        ensures
            final(self).inv(),
            final(self)@ == send_spec(old(self)@, dest@, payload@),
    {
        let ghost dest_v = dest@;
        let m = Message {
            src: String::new(),
            dest,
            body: Body { payload, msg_id: Id::Known(None), in_reply_to: Id::Known(None) },
        };
        proof {
            assert(m@ =~= send_message(dest_v, m@.body.payload));
        }
        self.enqueue(m);
    }

    /// Find the registry index of a correlation key, if it is registered.
    fn find_key(&self, dest: &String, msg_id: MessageId) -> (r: Option<usize>)
        ensures
            match r {
                Some(i) => 0 <= i < self@.in_flight.len() && flight_key_matches(
                    self@.in_flight[i as int],
                    dest@,
                    msg_id,
                ),
                None => !has_key(self@, dest@, msg_id),
            },
    {
        let n = self.in_flight.len();
        let mut i: usize = 0;
        while i < n
            invariant
                0 <= i <= n,
                n == self@.in_flight.len(),
                forall|j: int|
                    0 <= j < i ==> !flight_key_matches(
                        #[trigger] self@.in_flight[j],
                        dest@,
                        msg_id,
                    ),
            decreases n - i,
        {
            let entry = &self.in_flight[i];
            if entry.msg_id == msg_id && entry.dest == *dest {
                return Some(i);
            }
            i = i + 1;
        }
        None
    }

    /// Send a single message which expects a reply: allocate its id now (so
    /// every retransmission reuses it), register it under its correlation
    /// key, and enqueue the first attempt. Returns the allocated id; the
    /// caller's retry task passes it back to `retry_tick` each period.
    pub fn rpc(&mut self, dest: String, payload: String) -> (k: MessageId)
        requires
            old(self).inv(),
            old(self)@.next_id < u64::MAX,
        ensures
            final(self).inv(),
            final(self)@ == rpc_spec(old(self)@, dest@, payload@).0,
            k == rpc_spec(old(self)@, dest@, payload@).1,
    {
        let ghost s0 = self@;
        let ghost dest_v = dest@;
        let ghost payload_v = payload@;
        proof {
            assert(self@.issued == self.alloc.issued@);
            assert(self@.next_id == self.alloc.counter);
            assert(self.alloc.wf());
        }
        let k = self.alloc.next();
        let m = Message {
            src: String::new(),
            dest,
            body: Body { payload, msg_id: Id::Known(Some(k)), in_reply_to: Id::Known(None) },
        };
        let entry_dest = m.dest.clone();
        let copy = duplicate_message(&m);
        self.in_flight.push(InFlight { dest: entry_dest, msg_id: k, message: copy });
        proof {
            assert(m@ =~= rpc_message(dest_v, payload_v, k));
            assert(self@.in_flight =~= s0.in_flight.push(
                FlightView { dest: dest_v, msg_id: k, message: m@ },
            ));
            assert(self@.queue =~= s0.queue);
            assert(self.inv());
        }
        self.enqueue(m);
        proof {
            assert(self@ =~= rpc_spec(s0, dest_v, payload_v).0);
        }
        k
    }

    /// Acknowledge receipt of an RPC's reply, removing its registry entry;
    /// the retry task observes the removal and stops. A late, duplicate, or
    /// unknown acknowledgment is a silent no-op.
    pub fn ack(&mut self, message: &Message<String>)
        requires
            old(self).inv(),
        ensures
            final(self).inv(),
            final(self)@ == ack_spec(old(self)@, message@),
    {
        let k: MessageId = match message.body.in_reply_to {
            Id::Known(Some(k)) => k,
            _ => {
                return ;
            },
        };
        let ghost s0 = self@;
        match self.find_key(&message.src, k) {
            Some(i) => {
                self.in_flight.remove(i);
                proof {
                    assert(has_key(s0, message@.src, k));
                    let j = choose|j: int|
                        0 <= j < s0.in_flight.len() && flight_key_matches(
                            #[trigger] s0.in_flight[j],
                            message@.src,
                            k,
                        );
                    assert(j == i as int);
                    assert(self@.in_flight =~= s0.in_flight.remove(i as int));
                    assert(self@ =~= ack_spec(s0, message@));
                }
            },
            None => {
                proof {
                    assert(self@ =~= ack_spec(s0, message@));
                }
            },
        }
    }

    /// One retry period elapsing for the RPC registered under the given
    /// correlation key: while the key is registered, enqueue an identical
    /// copy of the registered message (same id, so the peer can deduplicate
    /// or simply re-acknowledge) and return true; once the key is gone,
    /// change nothing and return false, and the retry task stops.
    pub fn retry_tick(&mut self, dest: &String, msg_id: MessageId) -> (found: bool)
        requires
            old(self).inv(),
        ensures
            final(self).inv(),
            found == has_key(old(self)@, dest@, msg_id),
            final(self)@ == retry_spec(old(self)@, dest@, msg_id),
    {
        let ghost s0 = self@;
        match self.find_key(dest, msg_id) {
            Some(i) => {
                let copy = duplicate_message(&self.in_flight[i].message);
                proof {
                    let j = choose|j: int|
                        0 <= j < s0.in_flight.len() && flight_key_matches(
                            #[trigger] s0.in_flight[j],
                            dest@,
                            msg_id,
                        );
                    assert(j == i as int);
                    assert(copy@ == flight_message(s0, dest@, msg_id));
                }
                self.enqueue(copy);
                true
            },
            None => false,
        }
    }

    /// True while the allocator still has identifiers to hand out; the
    /// practical run never exhausts a 64-bit counter.
    pub fn can_allocate(&self) -> (r: bool)
        ensures
            r == (self@.next_id < u64::MAX),
    {
        self.alloc.counter < u64::MAX
    }

    /// The writer's step: take the oldest queued message, resolve its
    /// deferred fields (a deferred message id is allocated now, exactly
    /// once; a deferred `in_reply_to` becomes absent), stamp the node's own
    /// id as the source, and encode the message as one JSON line. Returns
    /// `None` when the queue is empty.
    pub fn drain_one(&mut self, node_id: &String) -> (r: Option<String>)
        requires
            old(self).inv(),
            old(self)@.next_id < u64::MAX,
        ensures
            final(self).inv(),
            final(self)@ == drain_spec(old(self)@, node_id@).0,
            match r {
                None => old(self)@.queue.len() == 0 && drain_spec(old(self)@, node_id@).1
                    is None,
                Some(line) => drain_spec(old(self)@, node_id@).1 == Some(line@),
            },
    {
        let ghost s0 = self@;
        if self.queue.len() == 0 {
            proof {
                assert(self@ =~= drain_spec(s0, node_id@).0);
            }
            return None;
        }
        let m = self.queue.remove(0);
        proof {
            assert(self@.issued == self.alloc.issued@);
            assert(self@.next_id == self.alloc.counter);
            assert(self.alloc.wf());
        }
        let msg_id: Option<MessageId> = match m.body.msg_id {
            Id::Defer => Some(self.alloc.next()),
            Id::Known(v) => v,
        };
        let in_reply_to: Option<MessageId> = m.body.in_reply_to.into_option();
        let line = render_line(
            node_id.as_str(),
            m.dest.as_str(),
            m.body.payload.as_str(),
            msg_id,
            in_reply_to,
        );
        proof {
            assert(msg_id == resolve_id(s0.queue[0].body.msg_id, Some(s0.next_id)));
            assert(in_reply_to == resolve_id(s0.queue[0].body.in_reply_to, None));
            assert(self@.queue =~= s0.queue.skip(1));
            assert(self@ =~= drain_spec(s0, node_id@).0);
            assert(self@.queue =~= self@.history.subrange(
                self@.history.len() - self@.queue.len(),
                self@.history.len() as int,
            ));
        }
        Some(line)
    }
}

} // verus!
