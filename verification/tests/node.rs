use maelstrom_rs::message::{Body, Message};
use maelstrom_rs::node::{Action, Event, InitInfo, Node};
use maelstrom_rs::Id;

/// Decode one wire line into a lifecycle event, the way the surrounding
/// program does: pull the envelope and the two id fields out, leave the rest
/// of the body as rendered payload text.
fn decode(line: &str) -> Event {
    let v: serde_json::Value = match serde_json::from_str(line) {
        Ok(serde_json::Value::Object(m)) => serde_json::Value::Object(m),
        _ => return Event::Malformed,
    };
    let src = v["src"].as_str().unwrap().to_string();
    let dest = v["dest"].as_str().unwrap().to_string();
    let body = v["body"].as_object().unwrap();
    let msg_id = match body.get("msg_id") {
        Some(n) => Id::Known(Some(n.as_u64().unwrap())),
        None => Id::Known(None),
    };
    let in_reply_to = match body.get("in_reply_to") {
        Some(n) => Id::Known(Some(n.as_u64().unwrap())),
        None => Id::Known(None),
    };
    if body["type"].as_str() == Some("init") {
        return Event::Init(InitInfo {
            src,
            msg_id,
            node_id: body["node_id"].as_str().unwrap().to_string(),
            node_ids: body["node_ids"]
                .as_array()
                .unwrap()
                .iter()
                .map(|n| n.as_str().unwrap().to_string())
                .collect(),
        });
    }
    let mut rest = body.clone();
    rest.remove("msg_id");
    rest.remove("in_reply_to");
    let rendered = serde_json::to_string(&serde_json::Value::Object(rest)).unwrap();
    let payload = rendered[1..rendered.len() - 1].to_string();
    Event::Inbound(Message {
        src,
        dest,
        body: Body::new(payload, msg_id, in_reply_to),
    })
}

#[test]
fn end_to_end_init_then_echo() {
    let mut node = Node::new();

    let first = decode(
        "{\"src\":\"c1\",\"dest\":\"n1\",\"body\":{\"type\":\"init\",\"node_id\":\"n1\",\"node_ids\":[\"n1\"],\"msg_id\":1}}",
    );
    let ack_line = match node.on_event(first) {
        Action::Emit(line) => line,
        _ => panic!("the handshake must be acknowledged"),
    };
    assert_eq!(
        ack_line,
        "{\"src\":\"n1\",\"dest\":\"c1\",\"body\":{\"type\":\"init_ok\",\"msg_id\":0,\"in_reply_to\":1}}"
    );

    let second = decode(
        "{\"src\":\"c1\",\"dest\":\"n1\",\"body\":{\"type\":\"echo\",\"echo\":\"hello\",\"msg_id\":2}}",
    );
    let delivered = match node.on_event(second) {
        Action::Deliver(m) => m,
        _ => panic!("a running node must deliver inbound messages"),
    };
    assert_eq!(delivered.src(), "c1");

    // Act as the echo workload: answer with the same payload under echo_ok.
    node.outbox
        .reply(&delivered, "\"type\":\"echo_ok\",\"echo\":\"hello\"".to_string());
    let echo_line = node.drain_one().expect("the reply must drain");
    assert_eq!(
        echo_line,
        "{\"src\":\"n1\",\"dest\":\"c1\",\"body\":{\"type\":\"echo_ok\",\"echo\":\"hello\",\"msg_id\":1,\"in_reply_to\":2}}"
    );
    assert!(node.drain_one().is_none());
}

#[test]
fn handshake_without_msg_id_is_acknowledged_without_in_reply_to() {
    let mut node = Node::new();
    let init = decode(
        "{\"src\":\"c1\",\"dest\":\"n1\",\"body\":{\"type\":\"init\",\"node_id\":\"n1\",\"node_ids\":[\"n1\"]}}",
    );
    let ack_line = match node.on_event(init) {
        Action::Emit(line) => line,
        _ => panic!("the handshake must be acknowledged"),
    };
    assert_eq!(
        ack_line,
        "{\"src\":\"n1\",\"dest\":\"c1\",\"body\":{\"type\":\"init_ok\",\"msg_id\":0}}"
    );
}

#[test]
fn non_init_message_before_handshake_is_fatal() {
    let mut node = Node::new();
    let stray = decode(
        "{\"src\":\"c1\",\"dest\":\"n1\",\"body\":{\"type\":\"echo\",\"echo\":\"hi\",\"msg_id\":1}}",
    );
    assert!(matches!(node.on_event(stray), Action::Fatal));
    // Startup failed without producing output, and the node reacts to
    // nothing further.
    assert!(matches!(node.on_event(Event::Eof), Action::Idle));
}

#[test]
fn malformed_line_before_handshake_is_fatal() {
    let mut node = Node::new();
    assert!(matches!(node.on_event(decode("not json at all")), Action::Fatal));
}

#[test]
fn end_of_stream_stops_a_running_node() {
    let mut node = Node::new();
    let init = decode(
        "{\"src\":\"c1\",\"dest\":\"n1\",\"body\":{\"type\":\"init\",\"node_id\":\"n1\",\"node_ids\":[\"n1\",\"n2\"],\"msg_id\":1}}",
    );
    assert!(matches!(node.on_event(init), Action::Emit(_)));
    assert!(matches!(node.on_event(Event::Eof), Action::Halt));
    assert!(matches!(node.on_event(Event::Malformed), Action::Idle));
}

#[test]
fn queued_output_still_drains_after_stop() {
    let mut node = Node::new();
    let init = decode(
        "{\"src\":\"c1\",\"dest\":\"n1\",\"body\":{\"type\":\"init\",\"node_id\":\"n1\",\"node_ids\":[\"n1\"],\"msg_id\":1}}",
    );
    node.on_event(init);
    node.outbox.send("c1".to_string(), "\"type\":\"ping\"".to_string());
    assert!(matches!(node.on_event(Event::Malformed), Action::Halt));
    // The writer drains whatever was queued before the stop.
    let line = node.drain_one().expect("queued output survives the stop");
    assert_eq!(line, "{\"src\":\"n1\",\"dest\":\"c1\",\"body\":{\"type\":\"ping\"}}");
}
