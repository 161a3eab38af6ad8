use orbflow::credential_proxy;
use orbflow::credential_proxy::{
    check_proxy_lookup, inject_auth, response_body, sanitize_headers, validate_proxy_url,
    AuthInjection, CapabilityRequest, CapabilityResponse, CredentialProxy, ProxyAction, ProxyCredential, ProxyEvent,
    ProxyState, ProxyTarget,
};
use orbflow::error::OrbflowError;
use orbflow::http::Header;
use orbflow::json::{write_json, JsonMember, JsonValue};
use orbflow::mcp_tool::{
    call_mcp_tool, config_bool, initialize_mcp, initialize_request, initialized_notification,
    tool_call, tool_call_request, tool_output, FieldType, McpContent, McpToolNode, McpToolResult,
    JsonRpcRequest, NodeInput, RequestParams, ToolAction, ToolEvent, ToolState,
};
use orbflow::ssrf;
use orbflow::ssrf::{ResolveErrorKind, ResolvedAddress};
use orbflow::ssrf_resolver;
use orbflow::transport::{
    HttpTransport, JsonRpcResponse, McpLocalhostPolicy, McpSsrfSafeResolver, SendOutcome,
};
use orbflow::weburl::{loopback_address, url_address, UrlHost};

fn text_member(key: &str, value: &str) -> JsonMember {
    JsonMember {
        key: key.to_owned(),
        value: JsonValue::Text(value.to_owned()),
    }
}

fn address(ip: &str, private_reason: Option<&str>) -> ResolvedAddress {
    ResolvedAddress {
        ip: ip.to_owned(),
        private_reason: private_reason.map(str::to_owned),
    }
}

fn config_error<T: std::fmt::Debug>(r: Result<T, OrbflowError>) -> String {
    match r {
        Err(OrbflowError::InvalidNodeConfig(e)) => e,
        other => panic!("expected a configuration error, got {other:?}"),
    }
}

fn internal_error<T: std::fmt::Debug>(r: Result<T, OrbflowError>) -> String {
    match r {
        Err(OrbflowError::Internal(e)) => e,
        other => panic!("expected an internal error, got {other:?}"),
    }
}

fn blocked() -> Vec<String> {
    vec!["metadata.google.internal".to_owned()]
}

#[test]
fn urls_are_taken_apart() {
    assert_eq!(url_address("https://10.0.0.1/x"), Some(UrlHost::Ipv4(0x0a00_0001)));
    assert_eq!(url_address("https://[::1]/x"), Some(UrlHost::Ipv6(1)));
    assert_eq!(url_address("https://example.com"), None);
    assert_eq!(url_address("nonsense"), None);
    assert!(loopback_address(UrlHost::Ipv4(0x7f12_3456)));
    assert!(!loopback_address(UrlHost::Ipv4(0x8000_0001)));
    assert!(!loopback_address(UrlHost::Ipv6(2)));
}

#[test]
fn proxy_urls_are_https_to_public_hosts() {
    let check = |url: &str, reason: Option<&str>| validate_proxy_url(url, &blocked(), reason);
    match check("https://Example.com/a b", None).unwrap() {
        ProxyTarget::Lookup { host, port, href } => {
            assert_eq!(host, "example.com");
            assert_eq!(port, 443);
            assert_eq!(href, "https://example.com/a%20b");
        }
        other => panic!("expected a lookup, got {other:?}"),
    }
    assert!(matches!(
        check("https://8.8.8.8:8443/", None).unwrap(),
        ProxyTarget::Admitted { href } if href == "https://8.8.8.8:8443/"
    ));
    assert_eq!(
        config_error(check("nonsense", None)),
        "invalid proxy URL: relative URL without a base"
    );
    assert_eq!(
        config_error(check("http://example.com", None)),
        "credential proxy only allows HTTPS URLs"
    );
    assert_eq!(
        config_error(check("https://LOCALHOST/", None)),
        "credential proxy blocked request to internal host: localhost"
    );
    assert_eq!(
        config_error(check("https://metadata.google.internal/", None)),
        "credential proxy blocked request to internal host: metadata.google.internal"
    );
    assert_eq!(
        config_error(check("https://10.0.0.1/", Some("private network"))),
        "credential proxy blocked request to private network: 10.0.0.1"
    );
}

#[test]
fn proxy_lookups_refuse_any_private_address() {
    let public = vec![address("8.8.8.8", None), address("1.1.1.1", None)];
    assert!(check_proxy_lookup("h", Some(&public)).is_ok());
    let mixed = vec![
        address("8.8.8.8", None),
        address("10.0.0.1", Some("private network")),
        address("127.0.0.1", Some("loopback")),
    ];
    assert_eq!(
        config_error(check_proxy_lookup("h", Some(&mixed))),
        "credential proxy URL hostname 'h' resolves to private network (10.0.0.1)"
    );
    assert_eq!(
        config_error(check_proxy_lookup("h", Some(&vec![]))),
        "credential proxy URL hostname 'h' resolved no addresses"
    );
    assert_eq!(
        config_error(check_proxy_lookup("h", None)),
        "credential proxy URL hostname 'h' could not be resolved"
    );
}

#[test]
fn resolvers_keep_or_refuse_private_addresses() {
    let mixed = vec![
        address("10.0.0.1", Some("private network")),
        address("8.8.8.8", None),
    ];
    let private = vec![address("10.0.0.1", Some("private network"))];
    let filter = credential_proxy::ProxySsrfSafeResolver;
    assert_eq!(filter.resolve(&mixed).unwrap(), [1]);
    let e = filter.resolve(&private).unwrap_err();
    assert_eq!(e.kind, ResolveErrorKind::PermissionDenied);
    assert_eq!(
        e.message,
        "all resolved addresses are private/internal (SSRF protection)"
    );

    let strict = ssrf::ProxySsrfSafeResolver;
    let e = strict.resolve(&mixed).unwrap_err();
    assert_eq!(e.kind, ResolveErrorKind::PermissionDenied);
    assert_eq!(
        e.message,
        "credential proxy SSRF policy blocked DNS resolution to private IP"
    );
    let e = strict.resolve(&vec![]).unwrap_err();
    assert_eq!(e.kind, ResolveErrorKind::NotFound);
    assert_eq!(e.message, "credential proxy SSRF policy blocked all resolved IPs");

    let telling = ssrf_resolver::ProxySsrfSafeResolver;
    let e = telling.resolve(&mixed).unwrap_err();
    assert_eq!(
        e.message,
        "credential proxy DNS resolution blocked request to private network: 10.0.0.1"
    );
    let e = telling.resolve(&vec![]).unwrap_err();
    assert_eq!(e.kind, ResolveErrorKind::NotFound);
    assert_eq!(e.message, "resolved no addresses");
    assert!(telling.resolve(&vec![address("8.8.8.8", None)]).is_ok());

    let dev = McpSsrfSafeResolver {
        localhost_policy: McpLocalhostPolicy::AllowForDev,
    };
    assert!(dev.admits_loopback("LocalHost.."));
    assert!(!dev.admits_loopback("localhost.example"));
    assert_eq!(dev.resolve(&mixed).unwrap(), [1]);
    let deny = McpSsrfSafeResolver {
        localhost_policy: McpLocalhostPolicy::Deny,
    };
    assert!(!deny.admits_loopback("localhost"));
}

#[test]
fn credentials_become_authentication() {
    let bearer = |data: Vec<JsonMember>| match inject_auth(&data) {
        AuthInjection::Bearer(value) => value,
        other => panic!("expected a bearer, got {other:?}"),
    };
    assert_eq!(
        bearer(vec![text_member("token", "t"), text_member("api_key", "k")]),
        "Bearer k"
    );
    assert_eq!(bearer(vec![text_member("token", "t")]), "Bearer t");
    assert!(matches!(
        inject_auth(&vec![text_member("username", "u")]),
        AuthInjection::Basic { username, password } if username == "u" && password.is_empty()
    ));
    assert!(matches!(inject_auth(&vec![]), AuthInjection::Nothing));
}

fn capability_request(method: &str, url: &str) -> CapabilityRequest {
    CapabilityRequest {
        credential_id: "c".into(),
        method: method.into(),
        url: url.into(),
        headers: vec![],
        body: None,
    }
}

fn finished(step: (ProxyState, ProxyAction)) -> Result<CapabilityResponse, OrbflowError> {
    match step {
        (ProxyState::Ended, ProxyAction::Finish(outcome)) => outcome,
        other => panic!("expected the end, got {other:?}"),
    }
}

#[test]
fn requests_are_checked_before_they_are_sent() {
    let proxy = CredentialProxy::new();
    let mut request = capability_request("M-SEARCH", "https://api.example.com/x");
    request.headers = vec![("x-b".into(), "2".into()), ("x-a".into(), "1".into())];
    request.body = Some(JsonValue::Bool(true));
    let (state, action) = proxy.handle(&request, &blocked(), None);
    assert!(matches!(
        action,
        ProxyAction::LookUp { host, port } if host == "api.example.com" && port == 443
    ));
    let public = ProxyEvent::Resolved(Some(vec![address("8.8.8.8", None)]));
    let (state, action) = proxy.proceed(&request, state, public);
    assert!(matches!(
        action,
        ProxyAction::Fetch { credential_id, href }
            if credential_id == "c" && href == "https://api.example.com/x"
    ));
    let credential = ProxyEvent::Fetched(Ok(ProxyCredential {
        name: "cred".into(),
        data: vec![text_member("token", "t")],
        domain_allowed: Some(true),
    }));
    let (state, action) = proxy.proceed(&request, state, credential);
    match action {
        ProxyAction::Send(out) => {
            assert_eq!(out.method, "M-SEARCH");
            assert_eq!(out.url, "https://api.example.com/x");
            assert_eq!(out.headers, request.headers);
            assert!(matches!(out.auth, AuthInjection::Bearer(value) if value == "Bearer t"));
            assert!(matches!(out.body, Some(JsonValue::Bool(true))));
            assert_eq!(out.timeout_secs, 30);
        }
        other => panic!("expected to send, got {other:?}"),
    }
    let step = proxy.proceed(&request, state, ProxyEvent::NotSent("reset".into()));
    assert_eq!(internal_error(finished(step)), "credential proxy HTTP error: reset");
}

#[test]
fn requests_end_where_a_check_fails() {
    let proxy = CredentialProxy::new();
    let get = capability_request("GET", "https://api.example.com/x");
    let plain = capability_request("GET", "http://api.example.com/x");
    assert_eq!(
        config_error(finished(proxy.handle(&plain, &blocked(), None))),
        "credential proxy only allows HTTPS URLs"
    );
    let literal = capability_request("GET", "https://8.8.8.8/x");
    assert!(matches!(
        proxy.handle(&literal, &blocked(), None),
        (ProxyState::Fetching { .. }, ProxyAction::Fetch { .. })
    ));
    let resolving = || ProxyState::Resolving {
        host: "h".into(),
        href: "https://h/".into(),
    };
    let private = ProxyEvent::Resolved(Some(vec![address("10.0.0.1", Some("private"))]));
    assert_eq!(
        config_error(finished(proxy.proceed(&get, resolving(), private))),
        "credential proxy URL hostname 'h' resolves to private (10.0.0.1)"
    );
    let fetching = || ProxyState::Fetching {
        href: "https://api.example.com/x".into(),
    };
    let credential = |domain_allowed: Option<bool>| {
        ProxyEvent::Fetched(Ok(ProxyCredential {
            name: "cred".into(),
            data: vec![],
            domain_allowed,
        }))
    };
    let missing = ProxyEvent::Fetched(Err(OrbflowError::NotFound));
    assert!(matches!(
        finished(proxy.proceed(&get, fetching(), missing)),
        Err(OrbflowError::NotFound)
    ));
    let bad = capability_request("bad method", "https://api.example.com/x");
    let resp = finished(proxy.proceed(&bad, fetching(), credential(Some(false)))).unwrap();
    assert_eq!(resp.status_code, 403);
    assert_eq!(
        resp.error.as_deref(),
        Some("domain not allowed for credential 'cred': https://api.example.com/x")
    );
    assert_eq!(
        config_error(finished(proxy.proceed(&bad, fetching(), credential(Some(true))))),
        "credential proxy invalid HTTP method 'bad method': invalid HTTP method"
    );
    let open = proxy.proceed(&get, fetching(), credential(None));
    assert!(matches!(open, (ProxyState::Sending, ProxyAction::Send(_))));
    let empty = capability_request("", "https://api.example.com/x");
    assert!(finished(proxy.proceed(&empty, fetching(), credential(Some(true)))).is_err());
}

#[test]
fn replies_are_sanitized() {
    let header = |name: &str, value: &[u8]| Header {
        name: name.to_owned(),
        value: value.to_vec(),
    };
    let headers = vec![
        header("authorization", b"Bearer t"),
        header("set-cookie", b"a=b"),
        header("x-api-key-id", b"k"),
        header("x-a", b"1"),
        header("x-a", b"2"),
        header("x-b", b"\xff"),
    ];
    let request = capability_request("GET", "https://api.example.com/x");
    let reply = ProxyEvent::Replied {
        status_code: 200,
        headers,
        body: b"[1]".to_vec(),
    };
    let step = CredentialProxy::new().proceed(&request, ProxyState::Sending, reply);
    let resp = finished(step).unwrap();
    assert_eq!(resp.status_code, 200);
    assert_eq!(resp.headers, [("x-a".to_owned(), "2".to_owned())]);
    assert!(matches!(resp.body, Some(JsonValue::Array(_))));
    assert!(resp.error.is_none());
    assert!(matches!(response_body(b"plain".to_vec()), Some(JsonValue::Text(s)) if s == "plain"));
    assert!(response_body(b"\xff".to_vec()).is_none());
    assert_eq!(sanitize_headers(&vec![header("X-API-KEY", b"k")]).len(), 0);
}

#[test]
fn mcp_urls_are_encrypted_or_local() {
    let make = |url: &str, policy: McpLocalhostPolicy, reason: Option<&str>| {
        HttpTransport::new_with_localhost_policy(url, policy, &blocked(), reason)
    };
    let deny = McpLocalhostPolicy::Deny;
    let dev = McpLocalhostPolicy::AllowForDev;
    assert!(dev.allow_localhost() && !deny.allow_localhost());
    let transport = HttpTransport::new("https://mcp.example.com", &blocked(), None).unwrap();
    assert_eq!(transport.base_url, "https://mcp.example.com");
    assert_eq!(config_error(make("::", deny, None)), "invalid MCP URL: ::");
    assert_eq!(
        config_error(make("ftp://h/", deny, None)),
        "MCP URL scheme 'ftp' is not allowed (only http and https)"
    );
    assert_eq!(
        config_error(make("https://Metadata.Google.Internal/", dev, None)),
        "MCP server URL points to cloud metadata endpoint"
    );
    assert_eq!(
        config_error(make("https://localhost/", deny, None)),
        "MCP server URL points to localhost; enable MCP localhost dev mode to allow it"
    );
    assert!(make("http://127.0.0.1:9/", dev, None).is_ok());
    assert_eq!(
        config_error(make("http://example.com/", dev, None)),
        "MCP server URL must use HTTPS unless MCP localhost dev mode is enabled"
    );
    assert_eq!(
        config_error(make("https://10.0.0.1/", dev, Some("private network"))),
        "MCP server URL points to private network: 10.0.0.1"
    );
}

#[test]
fn mcp_replies_are_read_by_status() {
    let transport = HttpTransport::new("https://mcp.example.com", &vec![], None).unwrap();
    let response = || JsonRpcResponse {
        result: None,
        error: None,
    };
    let replied = |status: u16| {
        transport.send(SendOutcome::Replied {
            status,
            body: Ok(response()),
        })
    };
    assert!(replied(204).is_ok());
    assert_eq!(internal_error(replied(300)), "MCP server request failed");
    assert_eq!(
        internal_error(transport.send(SendOutcome::NotSent("reset".into()))),
        "MCP transport error: reset"
    );
    let outcome = SendOutcome::Replied {
        status: 200,
        body: Err("EOF".into()),
    };
    assert_eq!(internal_error(transport.send(outcome)), "MCP response parse error: EOF");
}

#[test]
fn the_tool_node_reads_its_settings() {
    let input = |config: Vec<JsonMember>| NodeInput {
        config: Some(config),
        parameters: Some(vec![text_member("tool_name", "from-parameters")]),
        input: Some(vec![text_member("q", "x")]),
    };
    let call = tool_call(&input(vec![text_member("server_url", "https://s")])).unwrap();
    assert_eq!(call.server_url, "https://s");
    assert_eq!(call.tool_name, "from-parameters");
    assert_eq!(call.arguments.len(), 1);
    assert_eq!(call.localhost_policy, McpLocalhostPolicy::Deny);
    assert_eq!(
        config_error(tool_call(&input(vec![]))),
        "mcp_tool: server_url is required"
    );
    let without = NodeInput {
        config: Some(vec![text_member("server_url", "https://s")]),
        parameters: None,
        input: None,
    };
    assert_eq!(config_error(tool_call(&without)), "mcp_tool: tool_name is required");
    let wrong = input(vec![
        text_member("server_url", "https://s"),
        text_member("allow_localhost", "yes"),
    ]);
    assert_eq!(
        config_error(tool_call(&wrong)),
        "mcp_tool: allow_localhost must be a boolean"
    );
    let allowed = input(vec![JsonMember {
        key: "allow_localhost".into(),
        value: JsonValue::Bool(true),
    }]);
    assert!(config_bool(&allowed, "allow_localhost").unwrap());
}

#[test]
fn the_tool_node_checks_its_server_url() {
    let check = |url: &str, policy| orbflow::mcp_tool::validate_mcp_url(url, policy);
    let dev = McpLocalhostPolicy::AllowForDev;
    assert!(check("https://example.com", McpLocalhostPolicy::Deny).is_ok());
    assert!(check("http://[::1]:8080/", dev).is_ok());
    assert!(check("http://LOCALHOST/", dev).is_ok());
    assert_eq!(
        config_error(check("http://localhost/", McpLocalhostPolicy::Deny)),
        "mcp_tool: server_url must use HTTPS unless allow_localhost is enabled for local dev"
    );
    assert_eq!(
        config_error(check("ws://example.com/", dev)),
        "mcp_tool: server_url scheme must be http or https"
    );
    assert_eq!(
        config_error(check("https://", dev)),
        "mcp_tool: invalid URL: empty host"
    );
}

#[test]
fn mcp_sessions_open_and_call() {
    let open = initialize_request("1.2.3");
    assert_eq!((open.method.as_str(), open.id), ("initialize", Some(1)));
    assert!(matches!(
        open.params,
        Some(RequestParams::Initialize { protocol_version, client_name, client_version })
            if protocol_version == "2024-11-05" && client_name == "orbflow" && client_version == "1.2.3"
    ));
    assert!(initialized_notification().id.is_none());
    let call = tool_call_request("t", vec![text_member("q", "x")]);
    assert_eq!((call.method.as_str(), call.id), ("tools/call", Some(2)));
    let written = |r: &JsonRpcRequest| String::from_utf8(write_json(&r.to_json()).unwrap()).unwrap();
    assert_eq!(
        written(&initialize_request("1.2.3")),
        [
            r#"{"id":1,"jsonrpc":"2.0","method":"initialize","params":{"capabilities":{},"#,
            r#""clientInfo":{"name":"orbflow","version":"1.2.3"},"protocolVersion":"2024-11-05"}}"#,
        ]
        .concat()
    );
    assert_eq!(
        written(&initialized_notification()),
        r#"{"id":null,"jsonrpc":"2.0","method":"notifications/initialized"}"#
    );
    assert_eq!(
        written(&call),
        r#"{"id":2,"jsonrpc":"2.0","method":"tools/call","params":{"arguments":{"q":"x"},"name":"t"}}"#
    );
    let failed = || JsonRpcResponse {
        result: None,
        error: Some("nope".into()),
    };
    assert_eq!(internal_error(initialize_mcp(&failed())), "MCP initialize failed: nope");
    assert_eq!(
        internal_error(call_mcp_tool("t", failed())),
        "MCP tools/call 't' failed: nope"
    );
    let empty = JsonRpcResponse {
        result: None,
        error: None,
    };
    assert!(initialize_mcp(&empty).is_ok());
    assert!(matches!(call_mcp_tool("t", empty), Ok(JsonValue::Null)));
}

fn node_input(server_url: &str) -> NodeInput {
    NodeInput {
        config: Some(vec![
            text_member("server_url", server_url),
            text_member("tool_name", "t"),
        ]),
        parameters: None,
        input: Some(vec![text_member("q", "x")]),
    }
}

fn reply(result: Option<JsonValue>, error: Option<&str>) -> ToolEvent {
    ToolEvent::Replied(Ok(JsonRpcResponse {
        result,
        error: error.map(str::to_owned),
    }))
}

#[test]
fn the_tool_node_calls_in_an_open_session() {
    let node = McpToolNode;
    let (state, action) = node.execute(&node_input("https://s"));
    assert!(matches!(
        action,
        ToolAction::CheckAddresses { server_url, allow_localhost: false } if server_url == "https://s"
    ));
    let (state, action) = node.proceed("1", state, ToolEvent::Checked(Ok(())));
    assert!(matches!(
        action,
        ToolAction::Connect { server_url, localhost_policy: McpLocalhostPolicy::Deny }
            if server_url == "https://s"
    ));
    let (state, action) = node.proceed("1", state, ToolEvent::Connected(Ok(())));
    assert!(matches!(action, ToolAction::Send(r) if r.method == "initialize"));
    let (state, action) = node.proceed("1", state, reply(None, None));
    assert!(matches!(action, ToolAction::Send(r) if r.method == "notifications/initialized"));
    let lost = ToolEvent::Replied(Err(OrbflowError::Internal("lost".into())));
    let (state, action) = node.proceed("1", state, lost);
    assert!(matches!(
        action,
        ToolAction::Send(r) if matches!(
            &r.params,
            Some(RequestParams::ToolCall { name, arguments }) if name == "t" && arguments.len() == 1
        )
    ));
    let (state, action) = node.proceed("1", state, reply(Some(JsonValue::Bool(true)), None));
    assert!(matches!(action, ToolAction::Read(JsonValue::Bool(true))));
    let read = ToolEvent::Read(Ok((
        McpToolResult {
            content: vec![McpContent::Text { text: "done".into() }],
            is_error: false,
        },
        JsonValue::Null,
    )));
    match node.proceed("1", state, read) {
        (ToolState::Ended, ToolAction::Finish(Ok(out))) => {
            assert_eq!(out.data.unwrap()[0].value.as_str(), Some("done"));
            assert!(out.error.is_none());
        }
        other => panic!("expected an output, got {other:?}"),
    }
}

#[test]
fn the_tool_node_ends_where_a_step_fails() {
    let node = McpToolNode;
    let ended = |step: (ToolState, ToolAction)| match step {
        (ToolState::Ended, ToolAction::Finish(outcome)) => outcome,
        other => panic!("expected the end, got {other:?}"),
    };
    assert_eq!(
        config_error(ended(node.execute(&node_input("ws://s")))),
        "mcp_tool: server_url scheme must be http or https"
    );
    let call = || tool_call(&node_input("https://s")).unwrap();
    let refused = ToolEvent::Checked(Err(OrbflowError::InvalidNodeConfig("private".into())));
    assert_eq!(
        config_error(ended(node.proceed("1", ToolState::Checking(call()), refused))),
        "private"
    );
    let down = ToolEvent::Connected(Err(OrbflowError::Internal("down".into())));
    assert_eq!(
        internal_error(ended(node.proceed("1", ToolState::Connecting(call()), down))),
        "down"
    );
    assert_eq!(
        internal_error(ended(node.proceed(
            "1",
            ToolState::Opening(call()),
            reply(None, Some("no"))
        ))),
        "MCP initialize failed: no"
    );
    assert_eq!(
        internal_error(ended(node.proceed(
            "1",
            ToolState::Calling("t".into()),
            reply(None, Some("no"))
        ))),
        "MCP tools/call 't' failed: no"
    );
    let unreadable = ToolEvent::Read(Err("EOF".into()));
    assert_eq!(
        internal_error(ended(node.proceed("1", ToolState::Reading, unreadable))),
        "MCP result parse error: EOF"
    );
}

#[test]
fn tool_texts_are_joined() {
    let text = |s: &str| McpContent::Text { text: s.to_owned() };
    let result = |is_error: bool| McpToolResult {
        content: vec![text("a"), McpContent::Other, text("b")],
        is_error,
    };
    let out = tool_output(&result(true), JsonValue::Null);
    assert_eq!(out.error.as_deref(), Some("a\nb"));
    let data = out.data.unwrap();
    let keys: Vec<&str> = data.iter().map(|m| m.key.as_str()).collect();
    assert_eq!(keys, ["content", "is_error", "raw_content"]);
    assert_eq!(data[0].value.as_str(), Some("a\nb"));
    assert!(tool_output(&result(false), JsonValue::Null).error.is_none());
}

#[test]
fn the_tool_node_describes_itself() {
    let schema = McpToolNode.node_schema();
    assert_eq!(schema.plugin_ref, "builtin:mcp_tool");
    assert_eq!(schema.color, "#8B5CF6");
    let outputs: Vec<&str> = schema.outputs.iter().map(|f| f.key.as_str()).collect();
    assert_eq!(outputs, ["content", "is_error", "raw_content"]);
    assert!(schema.inputs.iter().all(|f| f.required));
    assert_eq!(schema.settings[0].field_type, FieldType::Boolean);
    assert!(matches!(schema.settings[0].default, Some(JsonValue::Bool(false))));
    assert!(schema.parameters.is_empty() && schema.capability_ports.is_empty());
    assert!(schema.node_kind.is_none() && schema.provides_capability.is_none());
    assert!(schema.docs.is_none() && schema.image_url.is_none());
    assert!(schema.inputs.iter().all(|f| f.choices.is_empty() && f.credential_type.is_none()));
}
