use orbflow::error::OrbflowError;
use orbflow::frame::{frame_response, read_rpc_frame, FrameProgress, MAX_RPC_FRAME_BYTES};
use orbflow::json::{parse_json, JsonValue};
use orbflow::rpc::{
    array_field, base64_field, connection_error, connection_step, data_response, decode_rpc_bytes,
    dispatch, handle_cancel_instance, handle_create_workflow, handle_get_instance,
    handle_get_workflow, handle_list_workflows, handle_start_workflow, list_response,
    orbflow_error_to_response, parse_request, parse_start_input, start_with_input,
    start_workflow_id, whole_body_definition, write_rpc_response, written_response, ConnectionStep,
    EngineFailure, FrameOutcome, GrpcServer, ReadEvent, RpcMethod, RpcRequest, RpcResponse,
    ServeEvent, ServeStep, StartInput, StartStep, WorkflowPage,
};

fn json(text: &str) -> JsonValue {
    parse_json(text.as_bytes()).unwrap()
}

fn code(r: &RpcResponse) -> &str {
    r.error.as_ref().map_or("", |e| e.code.as_str())
}

fn message(r: &RpcResponse) -> &str {
    r.error.as_ref().map_or("", |e| e.message.as_str())
}

/// Sends a request through an open server, up to the engine.
fn send_rpc(request: &str) -> Result<(RpcMethod, RpcRequest), RpcResponse> {
    let server = GrpcServer::new(None);
    match server.handle_connection(request.as_bytes()) {
        FrameOutcome::Respond(resp) => Err(resp),
        FrameOutcome::Request(envelope) => {
            let request = parse_request(&envelope, "mismatch")?;
            let method = dispatch(&request.method)?;
            Ok((method, request))
        }
    }
}

#[test]
fn create_workflow_rejects_non_byte_definition_array_entries() {
    let mut definition: Vec<serde_json::Value> = br#"{"id":"wf-byte-validation"}"#
        .iter()
        .map(|b| serde_json::Value::from(*b))
        .collect();
    definition.insert(1, serde_json::Value::from("not-a-byte"));
    let definition = serde_json::to_string(&definition).unwrap();

    let request = format!(r#"{{"method":"CreateWorkflow","body":{{"definition":{definition}}}}}"#);
    let (method, request) = send_rpc(&request).unwrap();
    assert_eq!(method, RpcMethod::CreateWorkflow);
    let response = handle_create_workflow(&request.body).unwrap_err();
    assert_eq!(code(&response), "INVALID_ARGUMENT");
    assert_eq!(message(&response), "definition[1] must be an integer in 0..=255");
}

#[test]
fn start_workflow_rejects_non_object_input() {
    let (method, request) = send_rpc(
        r#"{"method":"StartWorkflow","body":{"workflow_id":"wf-input-validation","input":"not an object"}}"#,
    )
    .unwrap();
    assert_eq!(method, RpcMethod::StartWorkflow);
    let step = handle_start_workflow(&request.body, None);
    assert!(matches!(step, StartStep::Respond(r) if code(&r) == "INVALID_ARGUMENT"));
}

#[test]
fn start_workflow_uses_owner_context_when_provided() {
    let (_, request) = send_rpc(
        r#"{"method":"StartWorkflow","body":{"workflow_id":"wf-owner-start","owner_id":"owner-123","input":{"order_id":"o-1"}}}"#,
    )
    .unwrap();
    assert_eq!(start_workflow_id(&request.body), "wf-owner-start");
    match handle_start_workflow(&request.body, None) {
        StartStep::Start { input, owner_id } => {
            assert_eq!(owner_id.as_deref(), Some("owner-123"));
            assert_eq!(input.len(), 1);
            assert_eq!(input[0].key, "order_id");
            assert!(matches!(&input[0].value, JsonValue::Text(s) if s == "o-1"));
        }
        other => panic!("expected a start, got {other:?}"),
    }
}

#[test]
fn start_workflow_rejects_invalid_owner_id() {
    let (_, request) = send_rpc(
        r#"{"method":"StartWorkflow","body":{"workflow_id":"wf-owner-start","owner_id":"","input":{}}}"#,
    )
    .unwrap();
    let step = handle_start_workflow(&request.body, None);
    match step {
        StartStep::Respond(r) => {
            assert_eq!(code(&r), "INVALID_ARGUMENT");
            assert_eq!(message(&r), "owner_id must be a non-empty string");
        }
        other => panic!("expected a refusal, got {other:?}"),
    }
    let step = handle_start_workflow(&json(r#"{"owner_id":7}"#), None);
    assert!(matches!(step, StartStep::Respond(r) if code(&r) == "INVALID_ARGUMENT"));
}

#[test]
fn a_start_goes_through_id_input_and_owner() {
    let refusal = orbflow_error_to_response(&OrbflowError::NotFound, false, "no".into());
    let step = handle_start_workflow(&json(r#"{"input":7}"#), Some(refusal));
    assert!(matches!(step, StartStep::Respond(r) if code(&r) == "NOT_FOUND"));
    // "eyJhIjoxfQ==" is base64 for {"a":1}.
    let body = json(r#"{"input":"eyJhIjoxfQ==","owner_id":"  o  "}"#);
    match handle_start_workflow(&body, None) {
        StartStep::ParseInput(bytes) => assert_eq!(bytes, br#"{"a":1}"#),
        other => panic!("expected bytes, got {other:?}"),
    }
    match start_with_input(&body, Vec::new()) {
        StartStep::Start { input, owner_id } => {
            assert!(input.is_empty());
            assert_eq!(owner_id.as_deref(), Some("o"));
        }
        other => panic!("expected a start, got {other:?}"),
    }
    let step = handle_start_workflow(&json(r#"{"owner_id":null,"input":null}"#), None);
    assert!(matches!(step, StartStep::Start { owner_id: None, .. }));
}

#[test]
fn inputs_are_read_by_their_kind() {
    let read = |text: &str| parse_start_input(&json(text));
    assert!(matches!(read("{}"), Ok(StartInput::Members(m)) if m.is_empty()));
    assert!(matches!(read(r#"{"input":[104,105]}"#), Ok(StartInput::Encoded(b)) if b == b"hi"));
    let refused = read(r#"{"input":3}"#).unwrap_err();
    assert_eq!(
        message(&refused),
        "input must be an object, base64 string, byte array, or null"
    );
}

#[test]
fn bytes_come_as_base64_or_as_numbers() {
    assert_eq!(decode_rpc_bytes(&json(r#""aGk=""#), "f").unwrap(), b"hi");
    assert_eq!(decode_rpc_bytes(&json("[0,255]"), "f").unwrap(), [0, 255]);
    let refused = |text: &str| decode_rpc_bytes(&json(text), "f").unwrap_err();
    let bad = refused(r#""a b""#);
    assert_eq!(code(&bad), "INVALID_ARGUMENT");
    assert!(message(&bad).starts_with("f is not valid base64: "));
    assert_eq!(message(&refused("[1,256]")), "f[1] is outside byte range 0..=255");
    assert_eq!(message(&refused("[1,-1]")), "f[1] must be an integer in 0..=255");
    assert_eq!(message(&refused("true")), "f must be a base64 string or byte array");
    let long: Vec<JsonValue> = (0..=MAX_RPC_FRAME_BYTES).map(|_| JsonValue::Unsigned(0)).collect();
    let refused = array_field(&long, "f").unwrap_err();
    assert_eq!(code(&refused), "RESOURCE_EXHAUSTED");
    assert_eq!(message(&refused), "f byte array exceeds 1048576 bytes");
    let refused = base64_field(Err("why".into()), "f").unwrap_err();
    assert_eq!(message(&refused), "f is not valid base64: why");
}

#[test]
fn a_byte_array_reads_back() {
    let bytes: Vec<u8> = (0..=255).collect();
    let response = data_response(Ok(bytes.clone()));
    let data = response.data.unwrap();
    let read = decode_rpc_bytes(data.get("data").unwrap(), "data").unwrap();
    assert_eq!(read, bytes);
}

#[test]
fn definitions_come_from_their_field_or_the_body() {
    let body = json(r#"{"definition":"aGk="}"#);
    assert!(matches!(handle_create_workflow(&body), Ok(b) if b == b"hi"));
    let body = json(r#"{"id":"wf"}"#);
    let whole = handle_create_workflow(&body).unwrap();
    assert_eq!(serde_json::from_slice::<serde_json::Value>(&whole).unwrap()["id"], "wf");
    let unwritten = whole_body_definition(Err("e".into())).unwrap_err();
    assert_eq!(message(&unwritten), "missing or invalid definition");
}

#[test]
fn ids_and_pages_have_defaults() {
    assert_eq!(handle_get_workflow(&json(r#"{"id":"wf-1"}"#)), "wf-1");
    assert_eq!(handle_get_workflow(&json("{}")), "");
    assert_eq!(handle_get_instance(&json(r#"{"id":"i"}"#)).unwrap().0, "i");
    let refused = handle_cancel_instance(&json(r#"{"id":5}"#)).unwrap_err();
    assert_eq!(message(&refused), "instance id is required");
    let page = |text: &str| {
        let p = handle_list_workflows(&json(text), 20);
        (p.offset, p.limit)
    };
    assert_eq!(page("{}"), (0, 20));
    assert_eq!(page(r#"{"offset":-4,"limit":0}"#), (0, 1));
    assert_eq!(page(r#"{"offset":7,"limit":1000}"#), (7, 100));
    assert_eq!(page(r#"{"offset":3000000000,"limit":"x"}"#), (0, 20));
}

#[test]
fn unknown_methods_are_unimplemented() {
    let refused = send_rpc(r#"{"method":"DropAll"}"#).unwrap_err();
    assert_eq!(code(&refused), "UNIMPLEMENTED");
    assert_eq!(message(&refused), "unknown method: DropAll");
    for (name, method) in [
        ("CreateWorkflow", RpcMethod::CreateWorkflow),
        ("GetWorkflow", RpcMethod::GetWorkflow),
        ("ListWorkflows", RpcMethod::ListWorkflows),
        ("StartWorkflow", RpcMethod::StartWorkflow),
        ("GetInstance", RpcMethod::GetInstance),
        ("CancelInstance", RpcMethod::CancelInstance),
    ] {
        assert_eq!(dispatch(name).unwrap(), method);
    }
}

#[test]
fn envelopes_are_objects_or_arrays() {
    let (_, request) = send_rpc(r#"["GetWorkflow",{"id":"w"}]"#).unwrap();
    assert_eq!(handle_get_workflow(&request.body), "w");
    let refused = send_rpc(r#"{"body":{}}"#).unwrap_err();
    assert_eq!(message(&refused), "invalid request: mismatch");
    assert!(send_rpc("[]").is_err());
    let refused = send_rpc("{").unwrap_err();
    assert_eq!(code(&refused), "INVALID_ARGUMENT");
    assert!(message(&refused).starts_with("invalid request: EOF while parsing"));
}

#[test]
fn only_the_token_passes() {
    let server = GrpcServer::new(Some("s3cret".into()));
    let passes = |frame: &str| {
        matches!(
            server.handle_connection(frame.as_bytes()),
            FrameOutcome::Request(_)
        )
    };
    assert!(passes(r#"{"method":"GetWorkflow","auth_token":"s3cret"}"#));
    assert!(!passes(r#"{"method":"GetWorkflow","auth_token":"s3cre"}"#));
    assert!(!passes(r#"{"method":"GetWorkflow","auth_token":5}"#));
    match server.handle_connection(br#"{"method":"GetWorkflow"}"#) {
        FrameOutcome::Respond(r) => {
            assert_eq!(code(&r), "UNAUTHENTICATED");
            assert_eq!(message(&r), "unauthorized");
        }
        other => panic!("expected a refusal, got {other:?}"),
    }
    let empty = GrpcServer::new(Some(String::new()));
    assert!(matches!(
        empty.handle_connection(b"{}"),
        FrameOutcome::Respond(_)
    ));
}

#[test]
fn errors_map_to_codes() {
    let mapped = |e: OrbflowError, v: bool| {
        orbflow_error_to_response(&e, v, "text".into())
            .error
            .unwrap()
            .code
    };
    assert_eq!(mapped(OrbflowError::NotFound, false), "NOT_FOUND");
    assert_eq!(mapped(OrbflowError::AlreadyExists, false), "ALREADY_EXISTS");
    assert_eq!(mapped(OrbflowError::Conflict, false), "ABORTED");
    assert_eq!(mapped(OrbflowError::Forbidden("f".into()), false), "PERMISSION_DENIED");
    assert_eq!(mapped(OrbflowError::Cancelled, false), "CANCELLED");
    assert_eq!(mapped(OrbflowError::Timeout, false), "DEADLINE_EXCEEDED");
    assert_eq!(mapped(OrbflowError::Internal("i".into()), false), "INTERNAL");
    assert_eq!(mapped(OrbflowError::NotFound, true), "INVALID_ARGUMENT");
}

#[test]
fn responses_carry_data_or_an_error() {
    let page = WorkflowPage {
        items: vec![vec![1], vec![2, 3]],
        total: 2,
    };
    let ok = list_response(Ok(page)).to_json();
    let data = ok.get("data").unwrap();
    assert_eq!(data.get("total").unwrap().as_i64(), Some(2));
    assert!(ok.get("error").is_none());
    let failure = EngineFailure {
        error: OrbflowError::Conflict,
        is_validation_error: false,
        message: "conflict".into(),
    };
    let err = data_response(Err(failure)).to_json();
    assert!(err.get("data").is_none());
    assert_eq!(err.get("error").unwrap().text_member("code"), Some("ABORTED"));
    assert_eq!(err.get("error").unwrap().text_member("message"), Some("conflict"));
}

#[test]
fn the_server_stops_on_errors_and_signals() {
    let mut server = GrpcServer::new(None);
    let failed = |step: ServeStep| match step {
        ServeStep::Fail(OrbflowError::Internal(e)) => e,
        other => panic!("expected an error, got {other:?}"),
    };
    let event = ServeEvent::NotBound {
        addr: "0.0.0.0:1".into(),
        cause: "denied".into(),
    };
    assert_eq!(failed(server.serve(event)), "json-rpc: bind 0.0.0.0:1: denied");
    let event = ServeEvent::NotAccepted("reset".into());
    assert_eq!(failed(server.serve(event)), "json-rpc: accept: reset");
    assert!(matches!(server.serve(ServeEvent::Accepted), ServeStep::ServeConnection));
    assert!(matches!(server.serve(ServeEvent::Stopping), ServeStep::End));
    server.stop();
    assert!(server.stopped);
    let read = connection_error("read", "reset");
    assert!(matches!(read, OrbflowError::Internal(e) if e == "json-rpc: read: reset"));
}

#[test]
fn frames_end_at_newlines_whatever_the_chunks() {
    let mut frame = Vec::new();
    assert_eq!(
        read_rpc_frame(&mut frame, b"{\"a\""),
        FrameProgress::More { consumed: 4 }
    );
    assert_eq!(
        read_rpc_frame(&mut frame, b":1}\r\nrest"),
        FrameProgress::Frame { consumed: 5 }
    );
    assert_eq!(frame, b"{\"a\":1}");
    let mut whole = Vec::new();
    assert_eq!(
        read_rpc_frame(&mut whole, b"{\"a\":1}\r\nrest"),
        FrameProgress::Frame { consumed: 9 }
    );
    assert_eq!(whole, frame);
}

#[test]
fn a_written_response_reads_back() {
    let line = frame_response(b"{\"data\":1}".to_vec());
    assert_eq!(line, b"{\"data\":1}\n");
    let mut frame = Vec::new();
    assert_eq!(
        read_rpc_frame(&mut frame, &line),
        FrameProgress::Frame { consumed: line.len() }
    );
    assert_eq!(frame, b"{\"data\":1}");
    let response = data_response(Ok(b"\n".to_vec()));
    let line = write_rpc_response(response).unwrap();
    assert_eq!(line, b"{\"data\":{\"data\":[10]}}\n");
    assert!(matches!(
        written_response(Err("e".into())),
        Err(OrbflowError::Internal(e)) if e == "json-rpc: serialize response: e"
    ));
}

#[test]
fn connections_end_as_their_reads_do() {
    let mut frame = Vec::new();
    assert_eq!(read_rpc_frame(&mut frame, b""), FrameProgress::Eof);
    frame.push(b'x');
    assert_eq!(read_rpc_frame(&mut frame, b""), FrameProgress::ClosedMidFrame);
    let mut full = vec![b'x'; MAX_RPC_FRAME_BYTES];
    assert_eq!(read_rpc_frame(&mut full, b"y"), FrameProgress::TooLarge);
    assert_eq!(
        read_rpc_frame(&mut full, b"\n"),
        FrameProgress::Frame { consumed: 1 }
    );
    assert!(matches!(
        connection_step(ReadEvent::Progress(FrameProgress::Eof)),
        ConnectionStep::Close
    ));
    assert!(matches!(
        connection_step(ReadEvent::Progress(FrameProgress::Frame { consumed: 1 })),
        ConnectionStep::Handle
    ));
    assert!(matches!(
        connection_step(ReadEvent::Progress(FrameProgress::More { consumed: 1 })),
        ConnectionStep::ReadMore
    ));
    match connection_step(ReadEvent::Progress(FrameProgress::TooLarge)) {
        ConnectionStep::RespondAndClose(r) => {
            assert_eq!(code(&r), "RESOURCE_EXHAUSTED");
            assert_eq!(message(&r), "request frame exceeds 1048576 bytes");
        }
        other => panic!("expected an answer, got {other:?}"),
    }
    match connection_step(ReadEvent::Progress(FrameProgress::ClosedMidFrame)) {
        ConnectionStep::Fail(OrbflowError::Internal(e)) => {
            assert_eq!(e, "json-rpc: connection closed mid-frame")
        }
        other => panic!("expected an error, got {other:?}"),
    }
    match connection_step(ReadEvent::TimedOut) {
        ConnectionStep::RespondAndClose(r) => {
            assert_eq!(code(&r), "DEADLINE_EXCEEDED");
            assert_eq!(message(&r), "request read deadline exceeded after 30s");
        }
        other => panic!("expected an answer, got {other:?}"),
    }
    assert!(matches!(
        connection_step(ReadEvent::Failed("reset".into())),
        ConnectionStep::Fail(OrbflowError::Internal(e)) if e == "json-rpc: read: reset"
    ));
}
