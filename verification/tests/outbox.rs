use maelstrom_rs::idgen::MsgIdAlloc;
use maelstrom_rs::{Body, Id, Message, Outbox};

fn inbound(src: &str, dest: &str, payload: &str, msg_id: Id<u64>) -> Message<String> {
    Message {
        src: src.to_string(),
        dest: dest.to_string(),
        body: Body::new(payload.to_string(), msg_id, Id::Known(None)),
    }
}

fn reply_to(src: &str, in_reply_to: u64) -> Message<String> {
    Message {
        src: src.to_string(),
        dest: "n1".to_string(),
        body: Body::new(
            "\"type\":\"broadcast_ok\"".to_string(),
            Id::Known(None),
            Id::Known(Some(in_reply_to)),
        ),
    }
}

#[test]
fn duplicated_message_preserves_every_field() {
    let original = inbound("c1", "n1", "\"type\":\"echo\",\"echo\":\"hi\"", Id::Known(Some(3)));
    let copy = maelstrom_rs::message::duplicate_message(&original);
    assert_eq!(copy.src(), original.src());
    assert_eq!(copy.dest(), original.dest());
    assert_eq!(copy.body().payload(), original.body().payload());
    assert!(matches!(copy.body().msg_id, Id::Known(Some(3))));
    assert!(matches!(copy.body().in_reply_to, Id::Known(None)));
}

#[test]
fn allocator_yields_distinct_increasing_ids() {
    let mut alloc = MsgIdAlloc::new(5);
    let a = alloc.next();
    let b = alloc.next();
    let c = alloc.next();
    assert_eq!((a, b, c), (5, 6, 7));
}

#[test]
fn reply_correlates_to_subject_message_id() {
    let node_id = "n1".to_string();
    let mut outbox = Outbox::new(1);
    let subject = inbound("c1", "n1", "\"type\":\"echo\",\"echo\":\"hi\"", Id::Known(Some(7)));
    outbox.reply(&subject, "\"type\":\"echo_ok\",\"echo\":\"hi\"".to_string());
    let line = outbox.drain_one(&node_id).expect("reply must be enqueued");
    assert_eq!(
        line,
        "{\"src\":\"n1\",\"dest\":\"c1\",\"body\":{\"type\":\"echo_ok\",\"echo\":\"hi\",\"msg_id\":1,\"in_reply_to\":7}}"
    );
}

#[test]
fn reply_to_subject_without_id_enqueues_nothing() {
    let node_id = "n1".to_string();
    let mut outbox = Outbox::new(1);
    let subject = inbound("c1", "n1", "\"type\":\"echo\",\"echo\":\"hi\"", Id::Known(None));
    outbox.reply(&subject, "\"type\":\"echo_ok\",\"echo\":\"hi\"".to_string());
    assert!(outbox.drain_one(&node_id).is_none());
}

#[test]
fn send_has_both_id_fields_absent() {
    let node_id = "n1".to_string();
    let mut outbox = Outbox::new(1);
    outbox.send("c9".to_string(), "\"type\":\"ping\"".to_string());
    let line = outbox.drain_one(&node_id).expect("send must be enqueued");
    assert_eq!(line, "{\"src\":\"n1\",\"dest\":\"c9\",\"body\":{\"type\":\"ping\"}}");
}

#[test]
fn rpc_retransmits_identically_until_acked() {
    let node_id = "n1".to_string();
    let dest = "n2".to_string();
    let mut outbox = Outbox::new(1);
    let k = outbox.rpc(dest.clone(), "\"type\":\"broadcast\",\"message\":5".to_string());
    assert_eq!(k, 1);

    // The first attempt plus three unacknowledged retry periods: four
    // identical transmissions, all with the same message id.
    assert!(outbox.retry_tick(&dest, k));
    assert!(outbox.retry_tick(&dest, k));
    assert!(outbox.retry_tick(&dest, k));
    let first = outbox.drain_one(&node_id).expect("rpc must be enqueued");
    assert_eq!(
        first,
        "{\"src\":\"n1\",\"dest\":\"n2\",\"body\":{\"type\":\"broadcast\",\"message\":5,\"msg_id\":1}}"
    );
    for _ in 0..3 {
        let retry = outbox.drain_one(&node_id).expect("retry must be enqueued");
        assert_eq!(retry, first);
    }
    assert!(outbox.drain_one(&node_id).is_none());

    // Acknowledgment stops the retries: the next period transmits nothing.
    outbox.ack(&reply_to("n2", k));
    assert!(!outbox.retry_tick(&dest, k));
    assert!(outbox.drain_one(&node_id).is_none());
}

#[test]
fn ack_is_idempotent_and_ignores_unknown_keys() {
    let dest = "n2".to_string();
    let mut outbox = Outbox::new(1);

    // A key that was never registered: a silent no-op.
    outbox.ack(&reply_to("n2", 42));

    let k = outbox.rpc(dest.clone(), "\"type\":\"broadcast\",\"message\":5".to_string());
    outbox.ack(&reply_to("n2", k));
    // Acknowledging the same key twice: the second is a silent no-op too.
    outbox.ack(&reply_to("n2", k));
    assert!(!outbox.retry_tick(&dest, k));

    // An ack whose reply carries no in_reply_to is also a no-op.
    let no_reply = inbound("n2", "n1", "\"type\":\"broadcast_ok\"", Id::Known(None));
    outbox.ack(&no_reply);
}

#[test]
fn ack_matches_on_source_as_well_as_id() {
    let dest = "n2".to_string();
    let mut outbox = Outbox::new(1);
    let k = outbox.rpc(dest.clone(), "\"type\":\"broadcast\",\"message\":5".to_string());
    // The same id from a different peer must not cancel the RPC.
    outbox.ack(&reply_to("n3", k));
    assert!(outbox.retry_tick(&dest, k));
    outbox.ack(&reply_to("n2", k));
    assert!(!outbox.retry_tick(&dest, k));
}

#[test]
fn writer_drains_in_enqueue_order() {
    let node_id = "n1".to_string();
    let mut outbox = Outbox::new(1);
    outbox.send("c1".to_string(), "\"type\":\"a\"".to_string());
    outbox.send("c2".to_string(), "\"type\":\"b\"".to_string());
    outbox.send("c3".to_string(), "\"type\":\"c\"".to_string());
    let first = outbox.drain_one(&node_id).unwrap();
    let second = outbox.drain_one(&node_id).unwrap();
    let third = outbox.drain_one(&node_id).unwrap();
    assert_eq!(first, "{\"src\":\"n1\",\"dest\":\"c1\",\"body\":{\"type\":\"a\"}}");
    assert_eq!(second, "{\"src\":\"n1\",\"dest\":\"c2\",\"body\":{\"type\":\"b\"}}");
    assert_eq!(third, "{\"src\":\"n1\",\"dest\":\"c3\",\"body\":{\"type\":\"c\"}}");
    assert!(outbox.drain_one(&node_id).is_none());
}

#[test]
fn writer_resolves_deferred_ids_in_write_order() {
    let node_id = "n1".to_string();
    let mut outbox = Outbox::new(1);
    let s1 = inbound("c1", "n1", "\"type\":\"echo\"", Id::Known(Some(10)));
    let s2 = inbound("c2", "n1", "\"type\":\"echo\"", Id::Known(Some(20)));
    outbox.reply(&s1, "\"type\":\"echo_ok\"".to_string());
    outbox.send("c9".to_string(), "\"type\":\"ping\"".to_string());
    outbox.reply(&s2, "\"type\":\"echo_ok\"".to_string());
    // Replies defer their id to the writer; the send has none. The writer
    // allocates 1 to the first reply and 2 to the second.
    let first = outbox.drain_one(&node_id).unwrap();
    let second = outbox.drain_one(&node_id).unwrap();
    let third = outbox.drain_one(&node_id).unwrap();
    assert_eq!(first, "{\"src\":\"n1\",\"dest\":\"c1\",\"body\":{\"type\":\"echo_ok\",\"msg_id\":1,\"in_reply_to\":10}}");
    assert_eq!(second, "{\"src\":\"n1\",\"dest\":\"c9\",\"body\":{\"type\":\"ping\"}}");
    assert_eq!(third, "{\"src\":\"n1\",\"dest\":\"c2\",\"body\":{\"type\":\"echo_ok\",\"msg_id\":2,\"in_reply_to\":20}}");
}
