use orbflow::execution::InstanceId;
use orbflow::json::{parse_json, JsonMember, JsonValue};
use orbflow::wire::{
    dispatch_identity, verify_result_identity, ResultIdentityError, ResultIdentityMode,
    ResultMessage, TaskMessage, WIRE_VERSION,
};
use orbflow::wire_json::WireError;

/// The value as the serializer knows it.
fn to_value(v: &JsonValue) -> serde_json::Value {
    match v {
        JsonValue::Null => serde_json::Value::Null,
        JsonValue::Bool(b) => serde_json::Value::from(*b),
        JsonValue::Unsigned(n) => serde_json::Value::from(*n),
        JsonValue::Negative(n) => serde_json::Value::from(*n),
        JsonValue::Float(s) => serde_json::from_str(s).unwrap(),
        JsonValue::Text(s) => serde_json::Value::from(s.as_str()),
        JsonValue::Array(items) => serde_json::Value::Array(items.iter().map(to_value).collect()),
        JsonValue::Object(members) => serde_json::Value::Object(
            members
                .iter()
                .map(|m| (m.key.clone(), to_value(&m.value)))
                .collect(),
        ),
    }
}

fn to_text(v: &JsonValue) -> String {
    serde_json::to_string(&to_value(v)).unwrap()
}

fn from_text(text: &str) -> JsonValue {
    parse_json(text.as_bytes()).unwrap()
}

fn text_member(key: &str, value: &str) -> JsonMember {
    JsonMember {
        key: key.to_owned(),
        value: JsonValue::Text(value.to_owned()),
    }
}

fn task() -> TaskMessage {
    TaskMessage {
        instance_id: InstanceId::new("inst-1"),
        node_id: "node-1".into(),
        dispatch_id: Some(dispatch_identity(&InstanceId::new("inst-1"), "node-1", 1)),
        plugin_ref: "builtin:http".into(),
        config: None,
        input: None,
        parameters: None,
        capabilities: None,
        attempt: 1,
        trace_context: None,
        v: 1,
    }
}

fn result() -> ResultMessage {
    ResultMessage {
        result_id: Some("r-1".into()),
        instance_id: InstanceId::new("inst-1"),
        node_id: "node-1".into(),
        attempt: 2,
        dispatch_id: Some(dispatch_identity(&InstanceId::new("inst-1"), "node-1", 2)),
        output: None,
        error: None,
        trace_context: None,
        v: WIRE_VERSION,
    }
}

#[test]
fn test_task_message_serde_roundtrip() {
    let msg = TaskMessage {
        config: Some(vec![text_member("url", "https://example.com")]),
        ..task()
    };
    let json = String::from_utf8(msg.write().unwrap()).unwrap();
    let msg2 = TaskMessage::from_json(&from_text(&json)).unwrap();
    assert_eq!(msg.instance_id.0, msg2.instance_id.0);
    assert_eq!(msg.node_id, msg2.node_id);
    assert_eq!(msg2.v, 1);
    assert_eq!(msg2.write().unwrap(), json.as_bytes());
}

#[test]
fn test_result_message_serde_roundtrip() {
    let msg = ResultMessage {
        result_id: Some("r-1".into()),
        instance_id: InstanceId::new("inst-1"),
        node_id: "node-1".into(),
        attempt: 1,
        dispatch_id: Some(dispatch_identity(&InstanceId::new("inst-1"), "node-1", 1)),
        output: Some(vec![JsonMember {
            key: "status".into(),
            value: JsonValue::Unsigned(200),
        }]),
        error: None,
        trace_context: None,
        v: 1,
    };
    let json = String::from_utf8(msg.write().unwrap()).unwrap();
    let msg2 = ResultMessage::from_json(&from_text(&json)).unwrap();
    assert_eq!(msg.result_id, msg2.result_id);
    assert_eq!(msg2.v, 1);
    assert_eq!(msg2.write().unwrap(), json.as_bytes());
}

#[test]
fn messages_are_written_field_by_field() {
    let pairs = vec![("b".to_owned(), "2".to_owned()), ("a".to_owned(), "1".to_owned())];
    let msg = TaskMessage {
        input: Some(vec![text_member("z", "1"), text_member("y", "\n")]),
        trace_context: Some(pairs),
        ..task()
    };
    assert_eq!(
        String::from_utf8(msg.write().unwrap()).unwrap(),
        [
            r#"{"instance_id":"inst-1","node_id":"node-1","dispatch_id":"inst-1:node-1:1","#,
            r#""plugin_ref":"builtin:http","input":{"y":"\n","z":"1"},"attempt":1,"#,
            r#""trace_context":{"a":"1","b":"2"},"v":1}"#,
        ]
        .concat()
    );
    assert_eq!(
        String::from_utf8(result().write().unwrap()).unwrap(),
        [
            r#"{"result_id":"r-1","instance_id":"inst-1","node_id":"node-1","attempt":2,"#,
            r#""dispatch_id":"inst-1:node-1:2","v":1}"#,
        ]
        .concat()
    );
}

#[test]
fn written_messages_are_read_as_they_were() {
    let nested = JsonValue::Array(vec![
        JsonValue::Null,
        JsonValue::Negative(-3),
        JsonValue::Object(vec![text_member("k", "\u{1F600}\"")]),
    ]);
    let msg = ResultMessage {
        output: Some(vec![text_member("b", ""), JsonMember { key: "a".into(), value: nested }]),
        error: Some("e\u{1}".into()),
        trace_context: Some(vec![]),
        attempt: -1,
        v: 255,
        ..result()
    };
    let read = ResultMessage::from_json(&parse_json(&msg.write().unwrap()).unwrap()).unwrap();
    assert_eq!(read.error.as_deref(), Some("e\u{1}"));
    assert_eq!((read.attempt, read.v), (-1, 255));
    assert_eq!(read.trace_context, Some(vec![]));
    let output = read.output.unwrap();
    let keys: Vec<&str> = output.iter().map(|m| m.key.as_str()).collect();
    assert_eq!(keys, ["a", "b"]);
    assert_eq!(to_text(&output[0].value), "[null,-3,{\"k\":\"\u{1F600}\\\"\"}]");
    // The parser enters 127 levels, of which the message is the first and the
    // output the second.
    let deep = |levels: usize| {
        let mut value = JsonValue::Array(vec![]);
        for _ in 1..levels {
            value = JsonValue::Array(vec![value]);
        }
        ResultMessage {
            output: Some(vec![JsonMember { key: "a".into(), value }]),
            ..result()
        }
    };
    assert!(parse_json(&deep(125).write().unwrap()).is_ok());
    assert!(parse_json(&deep(126).write().unwrap()).is_err());
}

#[test]
fn test_task_message_trace_context_roundtrip() {
    let ctx = vec![
        ("traceparent".to_owned(), "00-abc123-def456-01".to_owned()),
        ("tracestate".to_owned(), "orbflow=t:1".to_owned()),
    ];
    let msg = TaskMessage {
        trace_context: Some(ctx),
        ..task()
    };
    let json = String::from_utf8(msg.write().unwrap()).unwrap();
    let msg2 = TaskMessage::from_json(&from_text(&json)).unwrap();
    let tc = msg2.trace_context.unwrap();
    let get = |key: &str| tc.iter().find(|(k, _)| k == key).map(|(_, v)| v.as_str());
    assert_eq!(get("traceparent").unwrap(), "00-abc123-def456-01");
    assert_eq!(get("tracestate").unwrap(), "orbflow=t:1");
}

#[test]
fn test_wire_backward_compat_no_trace_context() {
    // Old messages without trace_context should deserialize fine.
    let json = r#"{"instance_id":"inst-1","node_id":"n1","plugin_ref":"builtin:http","attempt":1}"#;
    let msg = TaskMessage::from_json(&from_text(json)).unwrap();
    assert!(msg.trace_context.is_none());
    assert_eq!(msg.v, 1);
}

#[test]
fn test_wire_backward_compat_no_version() {
    // Old messages without `v` should deserialize with v=1.
    let json = r#"{"result_id":"r-1","instance_id":"inst-1","node_id":"n1"}"#;
    let msg = ResultMessage::from_json(&from_text(json)).unwrap();
    assert_eq!(msg.v, 1);
}

#[test]
fn result_identity_accepts_modern_dispatch() {
    let result = result();

    assert_eq!(
        verify_result_identity(&result, &InstanceId::new("inst-1"), "node-1", 2, false).unwrap(),
        ResultIdentityMode::Modern
    );
}

#[test]
fn result_identity_rejects_stale_attempt() {
    let result = ResultMessage {
        attempt: 1,
        dispatch_id: Some(dispatch_identity(&InstanceId::new("inst-1"), "node-1", 1)),
        ..result()
    };

    let err = verify_result_identity(&result, &InstanceId::new("inst-1"), "node-1", 2, false)
        .unwrap_err();
    assert!(matches!(err, ResultIdentityError::AttemptMismatch { .. }));
}

#[test]
fn result_identity_legacy_acceptance_is_explicit() {
    let result = ResultMessage {
        attempt: 0,
        dispatch_id: None,
        v: 1,
        ..result()
    };

    assert_eq!(
        verify_result_identity(&result, &InstanceId::new("inst-1"), "node-1", 2, true).unwrap(),
        ResultIdentityMode::LegacyV1
    );
    assert!(
        verify_result_identity(&result, &InstanceId::new("inst-1"), "node-1", 2, false).is_err()
    );
}

#[test]
fn dispatch_identity_names_instance_node_and_attempt() {
    assert_eq!(
        dispatch_identity(&InstanceId::new("inst-1"), "node-1", 1),
        "inst-1:node-1:1"
    );
    assert_eq!(dispatch_identity(&InstanceId::new("i"), "n", -3), "i:n:-3");
    assert_ne!(
        dispatch_identity(&InstanceId::new("i"), "n", 1),
        dispatch_identity(&InstanceId::new("i"), "n", 2)
    );
}

#[test]
fn every_identity_error_comes_from_its_mismatch() {
    let check = |r: &ResultMessage, inst: &str, node: &str, attempt: i32| {
        verify_result_identity(r, &InstanceId::new(inst), node, attempt, false)
            .unwrap_err()
            .to_string()
    };
    assert_eq!(
        check(&result(), "other", "node-1", 2),
        "result instance_id inst-1 does not match expected instance_id other"
    );
    assert_eq!(
        check(&result(), "inst-1", "node-9", 2),
        "result node_id node-1 does not match expected node_id node-9"
    );
    assert_eq!(
        check(&result(), "inst-1", "node-1", 3),
        "stale result for node node-1: attempt 2 does not match expected attempt 3"
    );
    let without = ResultMessage {
        dispatch_id: None,
        ..result()
    };
    assert_eq!(
        check(&without, "inst-1", "node-1", 2),
        "result for node node-1 is missing dispatch_id"
    );
    let stale = ResultMessage {
        dispatch_id: Some("inst-1:node-1:1".into()),
        ..result()
    };
    assert_eq!(
        check(&stale, "inst-1", "node-1", 2),
        "stale result for node node-1: dispatch_id inst-1:node-1:1 does not match expected inst-1:node-1:2"
    );
}

#[test]
fn fields_without_a_value_are_left_out() {
    assert_eq!(
        to_value(&task().to_json()),
        serde_json::from_str::<serde_json::Value>(
            r#"{"instance_id":"inst-1","node_id":"node-1","dispatch_id":"inst-1:node-1:1","plugin_ref":"builtin:http","attempt":1,"v":1}"#
        )
        .unwrap()
    );
}

#[test]
fn messages_read_from_arrays_and_nulls_too() {
    let msg = TaskMessage::from_json(&from_text(r#"["i","n",null,"p"]"#)).unwrap();
    assert_eq!(msg.plugin_ref, "p");
    assert!(msg.dispatch_id.is_none());
    assert_eq!((msg.attempt, msg.v), (0, 1));
    let msg = ResultMessage::from_json(&from_text(
        r#"{"instance_id":"i","node_id":"n","attempt":-1,"error":null,"v":7}"#,
    ))
    .unwrap();
    assert_eq!((msg.attempt, msg.v), (-1, 7));
    assert!(msg.error.is_none());
}

#[test]
fn what_is_no_message_is_refused() {
    let task = |text: &str| TaskMessage::from_json(&from_text(text)).unwrap_err();
    assert!(matches!(task("3"), WireError::NotARecord));
    assert!(matches!(task("[1,2,3,4,5,6,7,8,9,10,11,12]"), WireError::NotARecord));
    assert!(matches!(task(r#"{"node_id":"n"}"#), WireError::Missing(f) if f == "instance_id"));
    assert!(matches!(
        task(r#"{"instance_id":"i","node_id":"n","plugin_ref":"p","attempt":3000000000}"#),
        WireError::Invalid(f) if f == "attempt"
    ));
    assert!(matches!(
        task(r#"{"instance_id":"i","node_id":"n","plugin_ref":"p","trace_context":{"a":1}}"#),
        WireError::Invalid(f) if f == "trace_context"
    ));
    let result = |text: &str| ResultMessage::from_json(&from_text(text)).unwrap_err();
    assert!(matches!(
        result(r#"{"instance_id":"i","node_id":"n","v":256}"#),
        WireError::Invalid(f) if f == "v"
    ));
    assert!(matches!(
        result(r#"{"instance_id":"i","node_id":"n","output":[]}"#),
        WireError::Invalid(f) if f == "output"
    ));
}
