use maelstrom_rs::wire::{dec_u64, escape_str, render_line};

#[test]
fn decimal_rendering_is_exact() {
    assert_eq!(dec_u64(0), "0");
    assert_eq!(dec_u64(7), "7");
    assert_eq!(dec_u64(10), "10");
    assert_eq!(dec_u64(409), "409");
    assert_eq!(dec_u64(u64::MAX), "18446744073709551615");
}

#[test]
fn escaping_handles_quotes_backslashes_and_controls() {
    assert_eq!(escape_str("plain"), "plain");
    assert_eq!(escape_str("say \"hi\""), "say \\\"hi\\\"");
    assert_eq!(escape_str("a\\b"), "a\\\\b");
    assert_eq!(escape_str("line\nbreak"), "line\\u000abreak");
    assert_eq!(escape_str("tab\there"), "tab\\u0009here");
    assert_eq!(escape_str(""), "");
}

#[test]
fn rendered_line_is_the_exact_wire_text() {
    let line = render_line("n1", "c2", "\"type\":\"echo_ok\",\"echo\":\"x\"", Some(3), Some(8));
    assert_eq!(
        line,
        "{\"src\":\"n1\",\"dest\":\"c2\",\"body\":{\"type\":\"echo_ok\",\"echo\":\"x\",\"msg_id\":3,\"in_reply_to\":8}}"
    );
}

#[test]
fn absent_id_fields_are_omitted() {
    let line = render_line("n1", "c2", "\"type\":\"ping\"", None, None);
    assert_eq!(line, "{\"src\":\"n1\",\"dest\":\"c2\",\"body\":{\"type\":\"ping\"}}");

    let only_msg_id = render_line("n1", "c2", "\"type\":\"ping\"", Some(1), None);
    assert_eq!(only_msg_id, "{\"src\":\"n1\",\"dest\":\"c2\",\"body\":{\"type\":\"ping\",\"msg_id\":1}}");

    let only_reply = render_line("n1", "c2", "\"type\":\"ping\"", None, Some(4));
    assert_eq!(only_reply, "{\"src\":\"n1\",\"dest\":\"c2\",\"body\":{\"type\":\"ping\",\"in_reply_to\":4}}");
}

#[test]
fn rendered_line_parses_as_json_and_round_trips_fields() {
    let line = render_line("node \"a\"", "peer\\b", "\"type\":\"echo\",\"echo\":\"hi\"", Some(12), None);
    let v: serde_json::Value = serde_json::from_str(&line).expect("encoder must produce valid JSON");
    assert_eq!(v["src"].as_str().unwrap(), "node \"a\"");
    assert_eq!(v["dest"].as_str().unwrap(), "peer\\b");
    assert_eq!(v["body"]["type"].as_str().unwrap(), "echo");
    assert_eq!(v["body"]["echo"].as_str().unwrap(), "hi");
    assert_eq!(v["body"]["msg_id"].as_u64().unwrap(), 12);
    assert!(v["body"].get("in_reply_to").is_none());
}
