use fawkes::message::MessageOut;
use fawkes::reference::decimal_string;
use serde_json::Value;

fn message(topic: &str, payload: Value, reference: &str) -> MessageOut {
    MessageOut {
        topic: topic.to_string(),
        event: "ev".to_string(),
        payload,
        reference: reference.to_string(),
    }
}

#[test]
fn references_are_decimal() {
    assert_eq!(decimal_string(0), "0");
    assert_eq!(decimal_string(9), "9");
    assert_eq!(decimal_string(10), "10");
    assert_eq!(decimal_string(99), "99");
    assert_eq!(decimal_string(12034), "12034");
    assert_eq!(decimal_string(u64::MAX), "18446744073709551615");
    for n in [1u64, 7, 100, 1_000_000_007, u64::MAX - 1] {
        assert_eq!(decimal_string(n), n.to_string());
    }
}

#[test]
fn references_differ() {
    let mut seen = std::collections::HashSet::new();
    for n in 0u64..2000 {
        assert!(seen.insert(decimal_string(n)));
    }
}

#[test]
fn message_text_is_compact_and_ordered() {
    let payload: Value = serde_json::from_str("{\"b\": [1, null], \"a\": \"x\"}").unwrap();
    assert_eq!(
        message("room:1", payload, "12").to_json().unwrap(),
        "{\"topic\":\"room:1\",\"event\":\"ev\",\"payload\":{\"a\":\"x\",\"b\":[1,null]},\"ref\":\"12\"}"
    );
}

#[test]
fn message_text_escapes_strings() {
    let topic = "a\"b\\c/\u{8}\t\n\u{c}\r\u{0}\u{1f}\u{7f}é\u{2028}";
    assert_eq!(
        message(topic, Value::Null, "0").to_json().unwrap(),
        "{\"topic\":\"a\\\"b\\\\c/\\b\\t\\n\\f\\r\\u0000\\u001f\u{7f}é\u{2028}\",\"event\":\"ev\",\"payload\":null,\"ref\":\"0\"}"
    );
}

#[test]
fn message_text_escapes_every_control_character() {
    for c in 0u8..0x20 {
        let topic = char::from(c).to_string();
        let text = message(&topic, Value::Null, "0").to_json().unwrap();
        let read: Value = serde_json::from_str(&text).unwrap();
        assert_eq!(read["topic"], Value::String(topic));
        assert!(text.chars().all(|c| c >= ' '));
    }
}

#[test]
fn message_text_reads_back() {
    let text = message("t \u{1F980} \"q\"", Value::Bool(true), "3").to_json().unwrap();
    let read: Value = serde_json::from_str(&text).unwrap();
    assert_eq!(read["topic"], Value::String("t \u{1F980} \"q\"".to_string()));
    assert_eq!(read["event"], Value::String("ev".to_string()));
    assert_eq!(read["payload"], Value::Bool(true));
    assert_eq!(read["ref"], Value::String("3".to_string()));
    assert_eq!(read.as_object().unwrap().len(), 4);
}
