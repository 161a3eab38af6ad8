//! MCP tool node: calls of external MCP servers from within workflows.

use crate::error::OrbflowError;
use crate::json;
use crate::json::{JsonMember, JsonValue};
use crate::text;
use crate::transport;
use crate::transport::{JsonRpcResponse, McpLocalhostPolicy};
use crate::weburl;
use crate::weburl::{UrlHost, UrlParts};
use crate::workflow::NodeKind;
use vstd::prelude::*;

verus! {

/// The host is `localhost`, or an IP address of the loopback interface.
pub open spec fn is_loopback_target(parts: weburl::UrlModel) -> bool {
    if parts.host is Ipv4 || parts.host is Ipv6 {
        weburl::is_loopback_address(parts.host)
    } else {
        parts.host_text matches Some(h) && text::ascii_lowercase(h) == text::ascii_lowercase(
            "localhost"@,
        )
    }
}

/// Why a server URL is refused before its address is looked at; nothing where it
/// is not.
pub open spec fn server_url_refused(
    parsed: Result<weburl::UrlModel, Seq<char>>,
    allow_localhost: bool,
) -> Option<Seq<char>> {
    match parsed {
        Err(e) => Some("mcp_tool: invalid URL: "@ + e),
        Ok(parts) => if parts.scheme == "http"@ && !(allow_localhost && is_loopback_target(
            parts,
        )) {
            Some(
                "mcp_tool: server_url must use HTTPS unless allow_localhost is enabled for local dev"@,
            )
        } else if parts.scheme != "http"@ && parts.scheme != "https"@ {
            Some("mcp_tool: server_url scheme must be http or https"@)
        } else {
            None
        },
    }
}

/// Checks the scheme and host of a server URL that was taken apart.
pub fn check_server_url(parsed: &Result<UrlParts, String>, policy: McpLocalhostPolicy) -> (r:
    Result<(), OrbflowError>)
    ensures
        transport::refuses_config(
            r,
            server_url_refused(
                weburl::parts_model(*parsed),
                policy == McpLocalhostPolicy::AllowForDev,
            ),
        ),
{
    let parts = match parsed {
        Ok(parts) => parts,
        Err(e) => {
            let mut message = "mcp_tool: invalid URL: ".to_owned();
            message.append(e.as_str());
            return Err(OrbflowError::InvalidNodeConfig(message));
        },
    };
    let host_is_loopback = match parts.host {
        UrlHost::Ipv4(_) => weburl::loopback_address(parts.host),
        UrlHost::Ipv6(_) => weburl::loopback_address(parts.host),
        _ => match &parts.host_text {
            Some(h) => text::same_text_ignoring_ascii_case(h.as_str(), "localhost"),
            None => false,
        },
    };
    let scheme = parts.scheme.as_str();
    if text::same_text(scheme, "http") && !(policy.allow_localhost() && host_is_loopback) {
        return Err(
            OrbflowError::InvalidNodeConfig(
                "mcp_tool: server_url must use HTTPS unless allow_localhost is enabled for local dev".to_owned(),
            ),
        );
    }
    if !text::same_text(scheme, "http") && !text::same_text(scheme, "https") {
        return Err(
            OrbflowError::InvalidNodeConfig(
                "mcp_tool: server_url scheme must be http or https".to_owned(),
            ),
        );
    }
    Ok(())
}

/// Validates the scheme and host of an MCP server URL. Its addresses are to be
/// checked after that.
pub fn validate_mcp_url(url: &str, policy: McpLocalhostPolicy) -> (r: Result<(), OrbflowError>)
    ensures
        transport::refuses_config(
            r,
            server_url_refused(
                weburl::url_parsed(url@),
                policy == McpLocalhostPolicy::AllowForDev,
            ),
        ),
{
    check_server_url(&weburl::parse_url(url), policy)
}

/// The input of a node that is executed.
#[derive(Debug)]
pub struct NodeInput {
    pub config: Option<Vec<JsonMember>>,
    pub parameters: Option<Vec<JsonMember>>,
    pub input: Option<Vec<JsonMember>>,
}

/// The output of a node.
#[derive(Debug)]
pub struct NodeOutput {
    pub data: Option<Vec<JsonMember>>,
    pub error: Option<String>,
}

/// The value under the key, where there are members and they have it.
pub open spec fn opt_member(members: Option<Vec<JsonMember>>, key: Seq<char>) -> Option<
    json::Json,
> {
    match members {
        Some(m) => json::member(json::members_view(m@), key),
        None => None,
    }
}

/// A setting of the node: that of its configuration, else that of its parameters.
pub open spec fn setting(input: NodeInput, key: Seq<char>) -> Option<json::Json> {
    match opt_member(input.config, key) {
        Some(value) => Some(value),
        None => opt_member(input.parameters, key),
    }
}

/// The text of a setting.
pub open spec fn text_setting(input: NodeInput, key: Seq<char>) -> Option<Seq<char>> {
    match setting(input, key) {
        Some(value) => json::json_text(value),
        None => None,
    }
}

fn find_setting<'a>(input: &'a NodeInput, key: &str) -> (r: Option<&'a JsonValue>)
    ensures
        match r {
            Some(v) => setting(*input, key@) == Some(v@),
            None => setting(*input, key@) is None,
        },
{
    let configured = match &input.config {
        Some(members) => json::find_member(members, key),
        None => None,
    };
    match configured {
        Some(value) => Some(value),
        None => match &input.parameters {
            Some(members) => json::find_member(members, key),
            None => None,
        },
    }
}

/// The text of a setting; an error where there is none or it is no text.
pub fn required_text(input: &NodeInput, key: &str) -> (r: Result<String, OrbflowError>)
    ensures
        match text_setting(*input, key@) {
            Some(s) => r matches Ok(given) && given@ == s,
            None => r matches Err(OrbflowError::InvalidNodeConfig(e)) && e@ == "mcp_tool: "@ + key@
                + " is required"@,
        },
{
    if let Some(value) = find_setting(input, key) {
        if let Some(s) = value.as_str() {
            return Ok(s.to_owned());
        }
    }
    let mut message = "mcp_tool: ".to_owned();
    message.append(key);
    message.append(" is required");
    Err(OrbflowError::InvalidNodeConfig(message))
}

/// A setting that is true or false, and false where it is missing; an error where
/// it is anything else.
pub fn config_bool(input: &NodeInput, key: &str) -> (r: Result<bool, OrbflowError>)
    ensures
        match setting(*input, key@) {
            None => r matches Ok(b) && !b,
            Some(json::Json::Bool(value)) => r matches Ok(b) && b == value,
            Some(_) => r matches Err(OrbflowError::InvalidNodeConfig(e)) && e@ == "mcp_tool: "@
                + key@ + " must be a boolean"@,
        },
{
    match find_setting(input, key) {
        None => Ok(false),
        Some(value) => match value {
            JsonValue::Bool(b) => Ok(*b),
            _ => {
                let mut message = "mcp_tool: ".to_owned();
                message.append(key);
                message.append(" must be a boolean");
                Err(OrbflowError::InvalidNodeConfig(message))
            },
        },
    }
}

/// A call of a tool on a server.
#[derive(Debug)]
pub struct ToolCall {
    pub server_url: String,
    pub tool_name: String,
    pub arguments: Vec<JsonMember>,
    pub localhost_policy: McpLocalhostPolicy,
}

/// Why the node cannot be executed: the first of its settings that is missing or
/// wrong; nothing where all are there.
pub open spec fn input_refused(input: NodeInput) -> Option<Seq<char>> {
    if text_setting(input, "server_url"@) is None {
        Some("mcp_tool: "@ + "server_url"@ + " is required"@)
    } else if text_setting(input, "tool_name"@) is None {
        Some("mcp_tool: "@ + "tool_name"@ + " is required"@)
    } else {
        match setting(input, "allow_localhost"@) {
            None => None,
            Some(json::Json::Bool(_)) => None,
            Some(_) => Some("mcp_tool: "@ + "allow_localhost"@ + " must be a boolean"@),
        }
    }
}

/// The members that the node hands to the tool.
pub open spec fn tool_arguments(input: NodeInput) -> Seq<(Seq<char>, json::Json)> {
    match input.input {
        Some(m) => json::members_view(m@),
        None => Seq::empty(),
    }
}

/// The policy on loopback addresses that the node is set to.
pub open spec fn policy_setting(input: NodeInput) -> McpLocalhostPolicy {
    if setting(input, "allow_localhost"@) == Some(json::Json::Bool(true)) {
        McpLocalhostPolicy::AllowForDev
    } else {
        McpLocalhostPolicy::Deny
    }
}

/// The call is that of the tool and on the server that the node's settings name,
/// with the node's input as the arguments.
pub open spec fn is_call_of(call: ToolCall, input: NodeInput) -> bool {
    &&& text_setting(input, "server_url"@) == Some(call.server_url@)
    &&& text_setting(input, "tool_name"@) == Some(call.tool_name@)
    &&& json::members_view(call.arguments@) == tool_arguments(input)
    &&& call.localhost_policy == policy_setting(input)
}

/// The call that a node makes.
pub fn tool_call(input: &NodeInput) -> (r: Result<ToolCall, OrbflowError>)
    ensures
        match input_refused(*input) {
            Some(message) => r matches Err(OrbflowError::InvalidNodeConfig(e)) && e@ == message,
            None => r matches Ok(call) && is_call_of(call, *input),
        },
        r is Ok && input.input is Some ==> r->Ok_0.arguments@.len() == input.input->0@.len()
            && forall|i: int|
            0 <= i < input.input->0@.len() ==> (#[trigger] r->Ok_0.arguments@[i]).key@
                == input.input->0@[i].key@ && r->Ok_0.arguments@[i].value@
                == input.input->0@[i].value@,
        r is Ok && input.input is None ==> r->Ok_0.arguments@.len() == 0,
{
    let server_url = match required_text(input, "server_url") {
        Ok(s) => s,
        Err(e) => return Err(e),
    };
    let tool_name = match required_text(input, "tool_name") {
        Ok(s) => s,
        Err(e) => return Err(e),
    };
    let arguments = match &input.input {
        Some(members) => json::copy_members(members),
        None => Vec::new(),
    };
    assert(input.input is None ==> json::members_view(arguments@) =~= tool_arguments(*input));
    let allow_localhost = match config_bool(input, "allow_localhost") {
        Ok(b) => b,
        Err(e) => return Err(e),
    };
    let localhost_policy = if allow_localhost {
        McpLocalhostPolicy::AllowForDev
    } else {
        McpLocalhostPolicy::Deny
    };
    proof {
        if let Some(members) = &input.input {
            json::law_members_are_modelled_one_by_one(members@);
            json::law_members_are_modelled_one_by_one(arguments@);
            assert forall|i: int| 0 <= i < members@.len() implies (#[trigger] arguments@[i]).key@
                == members@[i].key@ && arguments@[i].value@ == members@[i].value@ by {
                assert(json::members_view(arguments@)[i] == json::members_view(members@)[i]);
            }
        }
    }
    Ok(ToolCall { server_url, tool_name, arguments, localhost_policy })
}

/// The parameters of a JSON-RPC request to an MCP server.
#[derive(Debug)]
pub enum RequestParams {
    /// Those of `initialize`: the protocol version, no capabilities, and the
    /// client's name and version.
    Initialize { protocol_version: String, client_name: String, client_version: String },
    /// Those of `tools/call`.
    ToolCall { name: String, arguments: Vec<JsonMember> },
}

/// A JSON-RPC request to an MCP server. A notification has no id.
#[derive(Debug)]
pub struct JsonRpcRequest {
    pub jsonrpc: String,
    pub id: Option<u64>,
    pub method: String,
    pub params: Option<RequestParams>,
}

/// The parameters as JSON.
pub open spec fn params_json(params: RequestParams) -> json::Json {
    match params {
        RequestParams::Initialize { protocol_version, client_name, client_version } => {
            json::Json::Object(
                seq![
                    ("protocolVersion"@, json::Json::Text(protocol_version@)),
                    ("capabilities"@, json::Json::Object(Seq::empty())),
                    (
                        "clientInfo"@,
                        json::Json::Object(
                            seq![
                                ("name"@, json::Json::Text(client_name@)),
                                ("version"@, json::Json::Text(client_version@)),
                            ],
                        ),
                    ),
                ],
            )
        },
        RequestParams::ToolCall { name, arguments } => json::Json::Object(
            seq![
                ("name"@, json::Json::Text(name@)),
                ("arguments"@, json::Json::Object(json::members_view(arguments@))),
            ],
        ),
    }
}

/// The request as JSON. The id of a notification is null, and parameters that
/// there are none of are left out.
pub open spec fn request_json(request: JsonRpcRequest) -> json::Json {
    let head = seq![
        ("jsonrpc"@, json::Json::Text(request.jsonrpc@)),
        (
            "id"@,
            match request.id {
                Some(n) => json::Json::Unsigned(n),
                None => json::Json::Null,
            },
        ),
        ("method"@, json::Json::Text(request.method@)),
    ];
    json::Json::Object(
        match request.params {
            Some(params) => head.push(("params"@, params_json(params))),
            None => head,
        },
    )
}

fn text_member(key: &str, value: &str) -> (r: JsonMember)
    ensures
        r.key@ == key@,
        r.value@ == json::Json::Text(value@),
{
    json::member_of(key, JsonValue::Text(value.to_owned()))
}

fn object(members: Vec<JsonMember>) -> (r: JsonValue)
    ensures
        r@ == json::Json::Object(json::members_view(members@)),
{
    proof {
        json::lemma_object_view(members);
    }
    JsonValue::Object(members)
}

impl RequestParams {
    /// The parameters as JSON.
    pub fn to_json(&self) -> (r: JsonValue)
        ensures
            r@ == params_json(*self),
    {
        let mut members: Vec<JsonMember> = Vec::new();
        match self {
            RequestParams::Initialize { protocol_version, client_name, client_version } => {
                let mut client: Vec<JsonMember> = Vec::new();
                client.push(text_member("name", client_name.as_str()));
                client.push(text_member("version", client_version.as_str()));
                assert(json::members_view(client@) =~= seq![
                    ("name"@, json::Json::Text(client_name@)),
                    ("version"@, json::Json::Text(client_version@)),
                ]);
                let none: Vec<JsonMember> = Vec::new();
                assert(json::members_view(none@) =~= Seq::<(Seq<char>, json::Json)>::empty());
                members.push(text_member("protocolVersion", protocol_version.as_str()));
                members.push(json::member_of("capabilities", object(none)));
                members.push(json::member_of("clientInfo", object(client)));
            },
            RequestParams::ToolCall { name, arguments } => {
                members.push(text_member("name", name.as_str()));
                members.push(json::member_of("arguments", object(json::copy_members(arguments))));
            },
        }
        assert(json::members_view(members@) =~= params_json(*self)->Object_0);
        object(members)
    }
}

impl JsonRpcRequest {
    /// The request as JSON.
    pub fn to_json(&self) -> (r: JsonValue)
        ensures
            r@ == request_json(*self),
    {
        let id = match self.id {
            Some(n) => JsonValue::Unsigned(n),
            None => JsonValue::Null,
        };
        let mut members: Vec<JsonMember> = Vec::new();
        members.push(text_member("jsonrpc", self.jsonrpc.as_str()));
        members.push(json::member_of("id", id));
        members.push(text_member("method", self.method.as_str()));
        if let Some(params) = &self.params {
            members.push(json::member_of("params", params.to_json()));
        }
        assert(json::members_view(members@) =~= request_json(*self)->Object_0);
        object(members)
    }
}

/// The request opens a session.
pub open spec fn opens_session(r: JsonRpcRequest, client_version: Seq<char>) -> bool {
    &&& r.jsonrpc@ == "2.0"@
    &&& r.id == Some(1u64)
    &&& r.method@ == "initialize"@
    &&& r.params matches Some(
        RequestParams::Initialize { protocol_version, client_name, client_version: version },
    ) && protocol_version@ == "2024-11-05"@ && client_name@ == "orbflow"@ && version@
        == client_version
}

/// The request that opens a session.
pub fn initialize_request(client_version: &str) -> (r: JsonRpcRequest)
    ensures
        opens_session(r, client_version@),
{
    JsonRpcRequest {
        jsonrpc: "2.0".to_owned(),
        id: Some(1),
        method: "initialize".to_owned(),
        params: Some(
            RequestParams::Initialize {
                protocol_version: "2024-11-05".to_owned(),
                client_name: "orbflow".to_owned(),
                client_version: client_version.to_owned(),
            },
        ),
    }
}

/// The request announces that a session is open.
pub open spec fn announces_session(r: JsonRpcRequest) -> bool {
    &&& r.jsonrpc@ == "2.0"@
    &&& r.id is None
    &&& r.method@ == "notifications/initialized"@
    &&& r.params is None
}

/// The notification that a session is open.
pub fn initialized_notification() -> (r: JsonRpcRequest)
    ensures
        announces_session(r),
{
    JsonRpcRequest {
        jsonrpc: "2.0".to_owned(),
        id: None,
        method: "notifications/initialized".to_owned(),
        params: None,
    }
}

/// The request calls a tool.
pub open spec fn calls_tool(
    r: JsonRpcRequest,
    tool_name: Seq<char>,
    arguments: Vec<JsonMember>,
) -> bool {
    &&& r.jsonrpc@ == "2.0"@
    &&& r.id == Some(2u64)
    &&& r.method@ == "tools/call"@
    &&& r.params matches Some(RequestParams::ToolCall { name, arguments: given }) && name@
        == tool_name && given == arguments
}

/// The request that calls a tool.
pub fn tool_call_request(tool_name: &str, arguments: Vec<JsonMember>) -> (r: JsonRpcRequest)
    ensures
        calls_tool(r, tool_name@, arguments),
{
    JsonRpcRequest {
        jsonrpc: "2.0".to_owned(),
        id: Some(2),
        method: "tools/call".to_owned(),
        params: Some(RequestParams::ToolCall { name: tool_name.to_owned(), arguments }),
    }
}

/// What is said of a session that the server did not open.
pub open spec fn not_opened(message: Seq<char>) -> Seq<char> {
    "MCP initialize failed: "@ + message
}

/// Whether the session is open, given the reply to the request that opens it.
pub fn initialize_mcp(response: &JsonRpcResponse) -> (r: Result<(), OrbflowError>)
    ensures
        match response.error {
            Some(message) => r matches Err(OrbflowError::Internal(e)) && e@ == not_opened(message@),
            None => r is Ok,
        },
{
    match &response.error {
        Some(message) => {
            let mut e = "MCP initialize failed: ".to_owned();
            e.append(message.as_str());
            Err(OrbflowError::Internal(e))
        },
        None => Ok(()),
    }
}

/// What is said of a call that failed.
pub open spec fn not_called(tool_name: Seq<char>, message: Seq<char>) -> Seq<char> {
    "MCP tools/call '"@ + tool_name + "' failed: "@ + message
}

/// The result in a reply; null where there is none.
pub open spec fn reply_result(response: JsonRpcResponse) -> json::Json {
    match response.result {
        Some(result) => result@,
        None => json::Json::Null,
    }
}

/// What a tool returned, given the reply to the request that calls it: its result,
/// null where there is none, to be read as a tool result.
pub fn call_mcp_tool(tool_name: &str, response: JsonRpcResponse) -> (r: Result<
    JsonValue,
    OrbflowError,
>)
    ensures
        match response.error {
            Some(message) => r matches Err(OrbflowError::Internal(e)) && e@ == not_called(
                tool_name@,
                message@,
            ),
            None => r matches Ok(value) && value@ == reply_result(response),
        },
{
    match response.error {
        Some(message) => {
            let mut e = "MCP tools/call '".to_owned();
            e.append(tool_name);
            e.append("' failed: ");
            e.append(message.as_str());
            Err(OrbflowError::Internal(e))
        },
        None => match response.result {
            Some(result) => Ok(result),
            None => Ok(JsonValue::Null),
        },
    }
}

/// A block of content that a tool returned.
#[derive(Debug)]
pub enum McpContent {
    Text { text: String },
    /// Any other kind.
    Other,
}

/// What a tool returned.
#[derive(Debug)]
pub struct McpToolResult {
    pub content: Vec<McpContent>,
    pub is_error: bool,
}

/// The texts among the blocks, in order, with a line break between each two.
pub open spec fn joined_texts(content: Seq<McpContent>) -> Seq<char> {
    joined(text_blocks(content))
}

/// The texts among the blocks, in order.
pub open spec fn text_blocks(content: Seq<McpContent>) -> Seq<Seq<char>>
    decreases content.len(),
{
    if content.len() == 0 {
        Seq::empty()
    } else {
        match content.last() {
            McpContent::Text { text } => text_blocks(content.drop_last()).push(text@),
            McpContent::Other => text_blocks(content.drop_last()),
        }
    }
}

/// The texts with a line break between each two.
pub open spec fn joined(texts: Seq<Seq<char>>) -> Seq<char>
    decreases texts.len(),
{
    if texts.len() == 0 {
        Seq::empty()
    } else if texts.len() == 1 {
        texts[0]
    } else {
        joined(texts.drop_last()) + "\n"@ + texts.last()
    }
}

/// The texts among the blocks, joined.
pub fn text_content(content: &Vec<McpContent>) -> (r: String)
    ensures
        r@ == joined_texts(content@),
{
    let mut out = String::new();
    let mut started = false;
    let ghost all = content@;
    let mut i: usize = 0;
    assert(out@ =~= joined_texts(all.take(0)));
    while i < content.len()
        invariant
            i <= content.len(),
            all == content@,
            out@ == joined_texts(all.take(i as int)),
            started == (text_blocks(all.take(i as int)).len() > 0),
        decreases content.len() - i,
    {
        let ghost before = text_blocks(all.take(i as int));
        assert(all.take(i + 1).drop_last() =~= all.take(i as int));
        if let McpContent::Text { text } = &content[i] {
            proof {
                let after = before.push(text@);
                assert(after.drop_last() =~= before);
                assert(before.len() == 0 ==> joined(before) =~= Seq::<char>::empty());
            }
            if started {
                out.append("\n");
            }
            out.append(text.as_str());
            started = true;
            assert(out@ =~= joined(before.push(text@)));
        }
        i += 1;
    }
    assert(all.take(all.len() as int) =~= all);
    out
}

/// The members of the node's output.
pub open spec fn output_members(
    content: Seq<char>,
    is_error: bool,
    raw_content: json::Json,
) -> Seq<(Seq<char>, json::Json)> {
    seq![
        ("content"@, json::Json::Text(content)),
        ("is_error"@, json::Json::Bool(is_error)),
        ("raw_content"@, raw_content),
    ]
}

/// The output is what a tool returned: its texts, whether it reports an error, and
/// its blocks as they came; the texts are the node's error where it reports one.
pub open spec fn is_output_of(
    output: NodeOutput,
    result: McpToolResult,
    raw_content: json::Json,
) -> bool {
    &&& output.data matches Some(data) && json::members_view(data@) == output_members(
        joined_texts(result.content@),
        result.is_error,
        raw_content,
    )
    &&& text::opt_text(output.error) == if result.is_error {
        Some(joined_texts(result.content@))
    } else {
        None
    }
}

/// The node's output for what a tool returned.
pub fn tool_output(result: &McpToolResult, raw_content: JsonValue) -> (r: NodeOutput)
    ensures
        is_output_of(r, *result, raw_content@),
{
    let content = text_content(&result.content);
    let error = if result.is_error {
        Some(content.clone())
    } else {
        None
    };
    let ghost raw = raw_content@;
    let mut data: Vec<JsonMember> = Vec::new();
    data.push(JsonMember { key: "content".to_owned(), value: JsonValue::Text(content) });
    data.push(JsonMember { key: "is_error".to_owned(), value: JsonValue::Bool(result.is_error) });
    data.push(JsonMember { key: "raw_content".to_owned(), value: raw_content });
    assert(json::members_view(data@) =~= output_members(
        joined_texts(result.content@),
        result.is_error,
        raw,
    ));
    NodeOutput { data: Some(data), error }
}

/// How far a call has come.
#[derive(Debug)]
pub enum ToolState {
    /// The addresses of its server are being checked.
    Checking(ToolCall),
    /// The server is being connected to.
    Connecting(ToolCall),
    /// The session is being opened.
    Opening(ToolCall),
    /// The server is being told that the session is open.
    Announcing(ToolCall),
    /// The tool of this name is being called.
    Calling(String),
    /// The tool's result is being read.
    Reading,
    /// It is over.
    Ended,
}

/// What came of the last thing that was done for a call.
#[derive(Debug)]
pub enum ToolEvent {
    /// Whether the addresses of the server are admitted.
    Checked(Result<(), OrbflowError>),
    /// Whether the server is connected to.
    Connected(Result<(), OrbflowError>),
    /// The reply to a request.
    Replied(Result<JsonRpcResponse, OrbflowError>),
    /// The tool's result and its blocks as they came, or why it is none.
    Read(Result<(McpToolResult, JsonValue), String>),
}

/// What is to be done next for a call.
#[derive(Debug)]
#[allow(inconsistent_fields)]
pub enum ToolAction {
    /// Check that the server's URL does not lead to a private address.
    CheckAddresses { server_url: String, allow_localhost: bool },
    /// Connect to the server.
    Connect { server_url: String, localhost_policy: McpLocalhostPolicy },
    /// Send a request over the connection.
    Send(JsonRpcRequest),
    /// Read the value as a tool result.
    Read(JsonValue),
    /// Give the node's output.
    Finish(Result<NodeOutput, OrbflowError>),
}

/// The event is one that the state waits for.
pub open spec fn awaits(state: ToolState, event: ToolEvent) -> bool {
    match state {
        ToolState::Checking(_) => event is Checked,
        ToolState::Connecting(_) => event is Connected,
        ToolState::Opening(_) => event is Replied,
        ToolState::Announcing(_) => event is Replied,
        ToolState::Calling(_) => event is Replied,
        ToolState::Reading => event is Read,
        ToolState::Ended => false,
    }
}

/// The call is over, and the node fails with this error.
pub open spec fn fails(state: ToolState, action: ToolAction, cause: OrbflowError) -> bool {
    state is Ended && action == ToolAction::Finish(Err(cause))
}

/// Why a node does not call its server; nothing where it does. `parsed` is what
/// the server's URL is.
pub open spec fn start_refused(
    input: NodeInput,
    parsed: Result<weburl::UrlModel, Seq<char>>,
) -> Option<Seq<char>> {
    match input_refused(input) {
        Some(message) => Some(message),
        None => server_url_refused(
            parsed,
            policy_setting(input) == McpLocalhostPolicy::AllowForDev,
        ),
    }
}

/// The first step of a node: it is refused, or the addresses of its server are
/// checked.
pub open spec fn begins(
    input: NodeInput,
    refused: Option<Seq<char>>,
    state: ToolState,
    action: ToolAction,
) -> bool {
    match refused {
        Some(message) => {
            &&& state is Ended
            &&& action matches ToolAction::Finish(Err(OrbflowError::InvalidNodeConfig(e))) && e@
                == message
        },
        None => {
            &&& state matches ToolState::Checking(call) && is_call_of(call, input)
            &&& action matches ToolAction::CheckAddresses { server_url, allow_localhost }
                && text_setting(input, "server_url"@) == Some(server_url@) && allow_localhost == (
            policy_setting(input) == McpLocalhostPolicy::AllowForDev)
        },
    }
}

/// The step that an event leads to.
pub open spec fn proceeds(
    client_version: Seq<char>,
    state: ToolState,
    event: ToolEvent,
    next: ToolState,
    action: ToolAction,
) -> bool {
    match (state, event) {
        (ToolState::Checking(_), ToolEvent::Checked(Err(e))) => fails(next, action, e),
        (ToolState::Checking(call), ToolEvent::Checked(Ok(_))) => {
            &&& next == ToolState::Connecting(call)
            &&& action matches ToolAction::Connect { server_url, localhost_policy } && server_url@
                == call.server_url@ && localhost_policy == call.localhost_policy
        },
        (ToolState::Connecting(_), ToolEvent::Connected(Err(e))) => fails(next, action, e),
        (ToolState::Connecting(call), ToolEvent::Connected(Ok(_))) => {
            &&& next == ToolState::Opening(call)
            &&& action matches ToolAction::Send(r) && opens_session(r, client_version)
        },
        (ToolState::Opening(_), ToolEvent::Replied(Err(e))) => fails(next, action, e),
        (ToolState::Opening(call), ToolEvent::Replied(Ok(response))) => match response.error {
            Some(message) => {
                &&& next is Ended
                &&& action matches ToolAction::Finish(Err(OrbflowError::Internal(e))) && e@
                    == not_opened(message@)
            },
            None => {
                &&& next == ToolState::Announcing(call)
                &&& action matches ToolAction::Send(r) && announces_session(r)
            },
        },
        (ToolState::Announcing(call), ToolEvent::Replied(_)) => {
            &&& next matches ToolState::Calling(name) && name@ == call.tool_name@
            &&& action matches ToolAction::Send(r) && calls_tool(
                r,
                call.tool_name@,
                call.arguments,
            )
        },
        (ToolState::Calling(_), ToolEvent::Replied(Err(e))) => fails(next, action, e),
        (ToolState::Calling(name), ToolEvent::Replied(Ok(response))) => match response.error {
            Some(message) => {
                &&& next is Ended
                &&& action matches ToolAction::Finish(Err(OrbflowError::Internal(e))) && e@
                    == not_called(name@, message@)
            },
            None => {
                &&& next is Reading
                &&& action matches ToolAction::Read(value) && value@ == reply_result(response)
            },
        },
        (ToolState::Reading, ToolEvent::Read(Err(reason))) => {
            &&& next is Ended
            &&& action matches ToolAction::Finish(Err(OrbflowError::Internal(e))) && e@
                == "MCP result parse error: "@ + reason@
        },
        (ToolState::Reading, ToolEvent::Read(Ok(read))) => {
            &&& next is Ended
            &&& action matches ToolAction::Finish(Ok(output)) && is_output_of(
                output,
                read.0,
                read.1@,
            )
        },
        _ => false,
    }
}

/// Builtin node that calls an MCP tool on an external server.
#[derive(Debug, Clone, Copy)]
pub struct McpToolNode;

fn failed(cause: OrbflowError) -> (r: (ToolState, ToolAction))
    ensures
        fails(r.0, r.1, cause),
{
    (ToolState::Ended, ToolAction::Finish(Err(cause)))
}

/// The first step of a node, given whether its server's URL is accepted.
pub fn begin(call: ToolCall, accepted: Result<(), OrbflowError>) -> (r: (ToolState, ToolAction))
    ensures
        match accepted {
            Err(e) => fails(r.0, r.1, e),
            Ok(_) => {
                &&& r.0 == ToolState::Checking(call)
                &&& r.1 matches ToolAction::CheckAddresses { server_url, allow_localhost }
                    && server_url@ == call.server_url@ && allow_localhost == (call.localhost_policy
                    == McpLocalhostPolicy::AllowForDev)
            },
        },
{
    match accepted {
        Err(e) => failed(e),
        Ok(()) => {
            let server_url = call.server_url.clone();
            let allow_localhost = call.localhost_policy.allow_localhost();
            (ToolState::Checking(call), ToolAction::CheckAddresses { server_url, allow_localhost })
        },
    }
}

fn open_session(call: ToolCall, response: JsonRpcResponse) -> (r: (ToolState, ToolAction))
    ensures
        proceeds(
            Seq::empty(),
            ToolState::Opening(call),
            ToolEvent::Replied(Ok(response)),
            r.0,
            r.1,
        ),
{
    match initialize_mcp(&response) {
        Err(e) => failed(e),
        Ok(()) => (ToolState::Announcing(call), ToolAction::Send(initialized_notification())),
    }
}

fn take_result(tool_name: &str, response: JsonRpcResponse) -> (r: (ToolState, ToolAction))
    ensures
        match response.error {
            Some(message) => {
                &&& r.0 is Ended
                &&& r.1 matches ToolAction::Finish(Err(OrbflowError::Internal(e))) && e@
                    == not_called(tool_name@, message@)
            },
            None => {
                &&& r.0 is Reading
                &&& r.1 matches ToolAction::Read(value) && value@ == reply_result(response)
            },
        },
{
    match call_mcp_tool(tool_name, response) {
        Err(e) => failed(e),
        Ok(value) => (ToolState::Reading, ToolAction::Read(value)),
    }
}

fn finish(read: Result<(McpToolResult, JsonValue), String>) -> (r: (ToolState, ToolAction))
    ensures
        proceeds(Seq::empty(), ToolState::Reading, ToolEvent::Read(read), r.0, r.1),
{
    match read {
        Err(reason) => {
            let mut e = "MCP result parse error: ".to_owned();
            e.append(reason.as_str());
            failed(OrbflowError::Internal(e))
        },
        Ok((result, raw_content)) => (
            ToolState::Ended,
            ToolAction::Finish(Ok(tool_output(&result, raw_content))),
        ),
    }
}

impl McpToolNode {
    /// Starts the node: its settings are read and its server's URL is validated.
    pub fn execute(&self, input: &NodeInput) -> (r: (ToolState, ToolAction))
        ensures
            begins(
                *input,
                start_refused(
                    *input,
                    weburl::url_parsed(text_setting(*input, "server_url"@)->0),
                ),
                r.0,
                r.1,
            ),
    {
        match tool_call(input) {
            Err(e) => failed(e),
            Ok(call) => {
                let accepted = validate_mcp_url(call.server_url.as_str(), call.localhost_policy);
                begin(call, accepted)
            },
        }
    }

    /// Takes the node one step on: its server is connected to, the session is
    /// opened and announced, the tool is called and its result is read. What comes
    /// of the announcement does not matter.
    pub fn proceed(&self, client_version: &str, state: ToolState, event: ToolEvent) -> (r: (
        ToolState,
        ToolAction,
    ))
        requires
            awaits(state, event),
        ensures
            proceeds(client_version@, state, event, r.0, r.1),
    {
        match (state, event) {
            (ToolState::Checking(call), ToolEvent::Checked(Ok(()))) => {
                let server_url = call.server_url.clone();
                let localhost_policy = call.localhost_policy;
                (ToolState::Connecting(call), ToolAction::Connect { server_url, localhost_policy })
            },
            (ToolState::Connecting(call), ToolEvent::Connected(Ok(()))) => (
                ToolState::Opening(call),
                ToolAction::Send(initialize_request(client_version)),
            ),
            (ToolState::Opening(call), ToolEvent::Replied(Ok(response))) => open_session(
                call,
                response,
            ),
            (ToolState::Announcing(call), ToolEvent::Replied(_)) => {
                let request = tool_call_request(call.tool_name.as_str(), call.arguments);
                (ToolState::Calling(call.tool_name), ToolAction::Send(request))
            },
            (ToolState::Calling(name), ToolEvent::Replied(Ok(response))) => take_result(
                name.as_str(),
                response,
            ),
            (ToolState::Reading, ToolEvent::Read(read)) => finish(read),
            (_, ToolEvent::Checked(Err(e))) => failed(e),
            (_, ToolEvent::Connected(Err(e))) => failed(e),
            (_, ToolEvent::Replied(Err(e))) => failed(e),
            // No state awaits any other event.
            _ => failed(OrbflowError::Conflict),
        }
    }
}

/// The type of a field of a node's schema.
#[derive(Debug, Clone, Copy, PartialEq, Eq, Structural)]
pub enum FieldType {
    Text,
    Boolean,
    Object,
}

/// A field of a node's schema.
#[derive(Debug)]
pub struct FieldSchema {
    pub key: String,
    pub label: String,
    pub field_type: FieldType,
    pub required: bool,
    pub description: Option<String>,
    pub default: Option<JsonValue>,
    /// The values that it is limited to; none where it is not.
    pub choices: Vec<String>,
    /// The type of the credential that it refers to.
    pub credential_type: Option<String>,
}

/// The model of a field.
pub struct FieldModel {
    pub key: Seq<char>,
    pub label: Seq<char>,
    pub field_type: FieldType,
    pub required: bool,
    pub description: Option<Seq<char>>,
    pub default: Option<json::Json>,
    pub choices: Seq<Seq<char>>,
    pub credential_type: Option<Seq<char>>,
}

impl View for FieldSchema {
    type V = FieldModel;

    open spec fn view(&self) -> FieldModel {
        FieldModel {
            key: self.key@,
            label: self.label@,
            field_type: self.field_type,
            required: self.required,
            description: text::opt_text(self.description),
            default: match self.default {
                Some(value) => Some(value@),
                None => None,
            },
            choices: text::texts(self.choices@),
            credential_type: text::opt_text(self.credential_type),
        }
    }
}

/// The models of a list of fields.
pub open spec fn fields(v: Seq<FieldSchema>) -> Seq<FieldModel> {
    v.map_values(|f: FieldSchema| f@)
}

/// How a node shows itself to those who build workflows.
#[derive(Debug)]
pub struct NodeSchema {
    pub plugin_ref: String,
    pub name: String,
    pub description: String,
    pub icon: String,
    pub color: String,
    pub category: String,
    pub node_kind: Option<NodeKind>,
    pub docs: Option<String>,
    pub image_url: Option<String>,
    pub inputs: Vec<FieldSchema>,
    pub outputs: Vec<FieldSchema>,
    pub parameters: Vec<FieldSchema>,
    /// The names of the ports through which it takes capabilities.
    pub capability_ports: Vec<String>,
    pub settings: Vec<FieldSchema>,
    /// The name of the capability that it provides.
    pub provides_capability: Option<String>,
}

/// A field with a description, limited to no choices and of no credential type.
pub open spec fn field_model(
    key: Seq<char>,
    label: Seq<char>,
    field_type: FieldType,
    required: bool,
    description: Seq<char>,
    default: Option<json::Json>,
) -> FieldModel {
    FieldModel {
        key,
        label,
        field_type,
        required,
        description: Some(description),
        default,
        choices: Seq::empty(),
        credential_type: None,
    }
}

fn field(
    key: &str,
    label: &str,
    field_type: FieldType,
    required: bool,
    description: &str,
    default: Option<JsonValue>,
) -> (r: FieldSchema)
    ensures
        r@ == field_model(
            key@,
            label@,
            field_type,
            required,
            description@,
            match default {
                Some(value) => Some(value@),
                None => None,
            },
        ),
{
    let choices: Vec<String> = Vec::new();
    assert(text::texts(choices@) =~= Seq::<Seq<char>>::empty());
    FieldSchema {
        key: key.to_owned(),
        label: label.to_owned(),
        field_type,
        required,
        description: Some(description.to_owned()),
        default,
        choices,
        credential_type: None,
    }
}

/// What the node takes.
pub open spec fn schema_inputs() -> Seq<FieldModel> {
    seq![
        field_model(
            "server_url"@,
            "MCP Server URL"@,
            FieldType::Text,
            true,
            "URL of the MCP server (HTTP transport)"@,
            None,
        ),
        field_model(
            "tool_name"@,
            "Tool Name"@,
            FieldType::Text,
            true,
            "Name of the MCP tool to call"@,
            None,
        ),
    ]
}

/// What the node gives.
pub open spec fn schema_outputs() -> Seq<FieldModel> {
    seq![
        field_model(
            "content"@,
            "Content"@,
            FieldType::Text,
            false,
            "Text content returned by the tool"@,
            None,
        ),
        field_model(
            "is_error"@,
            "Is Error"@,
            FieldType::Boolean,
            false,
            "Whether the tool call returned an error"@,
            None,
        ),
        field_model(
            "raw_content"@,
            "Raw Content"@,
            FieldType::Object,
            false,
            "Full MCP content blocks (text and images)"@,
            None,
        ),
    ]
}

/// What the node can be set to.
pub open spec fn schema_settings() -> Seq<FieldModel> {
    seq![
        field_model(
            "allow_localhost"@,
            "Allow Localhost"@,
            FieldType::Boolean,
            false,
            "Allow HTTP loopback MCP servers for local development"@,
            Some(json::Json::Bool(false)),
        ),
    ]
}

impl McpToolNode {
    /// The node's schema.
    pub fn node_schema(&self) -> (r: NodeSchema)
        ensures
            r.plugin_ref@ == "builtin:mcp_tool"@,
            r.name@ == "MCP Tool"@,
            r.description@ == "Call a tool on an external MCP server"@,
            r.icon@ == "plug"@,
            r.color@ == "#8B5CF6"@,
            r.category@ == "AI & MCP"@,
            r.node_kind is None,
            r.docs is None,
            r.image_url is None,
            fields(r.inputs@) == schema_inputs(),
            fields(r.outputs@) == schema_outputs(),
            r.parameters@.len() == 0,
            r.capability_ports@.len() == 0,
            fields(r.settings@) == schema_settings(),
            r.provides_capability is None,
    {
        let mut inputs: Vec<FieldSchema> = Vec::new();
        inputs.push(
            field(
                "server_url",
                "MCP Server URL",
                FieldType::Text,
                true,
                "URL of the MCP server (HTTP transport)",
                None,
            ),
        );
        inputs.push(
            field(
                "tool_name",
                "Tool Name",
                FieldType::Text,
                true,
                "Name of the MCP tool to call",
                None,
            ),
        );
        let mut outputs: Vec<FieldSchema> = Vec::new();
        outputs.push(
            field(
                "content",
                "Content",
                FieldType::Text,
                false,
                "Text content returned by the tool",
                None,
            ),
        );
        outputs.push(
            field(
                "is_error",
                "Is Error",
                FieldType::Boolean,
                false,
                "Whether the tool call returned an error",
                None,
            ),
        );
        outputs.push(
            field(
                "raw_content",
                "Raw Content",
                FieldType::Object,
                false,
                "Full MCP content blocks (text and images)",
                None,
            ),
        );
        let mut settings: Vec<FieldSchema> = Vec::new();
        settings.push(
            field(
                "allow_localhost",
                "Allow Localhost",
                FieldType::Boolean,
                false,
                "Allow HTTP loopback MCP servers for local development",
                Some(JsonValue::Bool(false)),
            ),
        );
        assert(fields(inputs@) =~= schema_inputs());
        assert(fields(outputs@) =~= schema_outputs());
        assert(fields(settings@) =~= schema_settings());
        NodeSchema {
            plugin_ref: "builtin:mcp_tool".to_owned(),
            name: "MCP Tool".to_owned(),
            description: "Call a tool on an external MCP server".to_owned(),
            icon: "plug".to_owned(),
            color: "#8B5CF6".to_owned(),
            category: "AI & MCP".to_owned(),
            node_kind: None,
            docs: None,
            image_url: None,
            inputs,
            outputs,
            parameters: Vec::new(),
            capability_ports: Vec::new(),
            settings,
            provides_capability: None,
        }
    }
}

/// What the node gives out is what its schema says it gives: a member for each
/// output field, under the field's key and in its order.
pub proof fn law_output_matches_schema(
    content: Seq<char>,
    is_error: bool,
    raw_content: json::Json,
)
    ensures
        output_members(content, is_error, raw_content).len() == schema_outputs().len(),
        forall|i: int|
            0 <= i < schema_outputs().len() ==> (#[trigger] output_members(
                content,
                is_error,
                raw_content,
            )[i]).0 == schema_outputs()[i].key,
{
}

/// The node refuses to run exactly where a setting that its schema requires is
/// missing, or `allow_localhost` is neither true nor false.
pub proof fn law_required_inputs_are_enforced(input: NodeInput)
    ensures
        input_refused(input) is None <==> {
            &&& text_setting(input, schema_inputs()[0].key) is Some
            &&& text_setting(input, schema_inputs()[1].key) is Some
            &&& setting(input, schema_settings()[0].key) is None || setting(
                input,
                schema_settings()[0].key,
            )->0 is Bool
        },
{
}

/// The states and actions of a node, from its first step on, and the events
/// between them.
pub open spec fn is_run(
    input: NodeInput,
    refused: Option<Seq<char>>,
    client_version: Seq<char>,
    states: Seq<ToolState>,
    actions: Seq<ToolAction>,
    events: Seq<ToolEvent>,
) -> bool {
    &&& states.len() == events.len() + 1
    &&& actions.len() == states.len()
    &&& begins(input, refused, states[0], actions[0])
    &&& forall|i: int|
        0 <= i < events.len() ==> proceeds(
            client_version,
            states[i],
            #[trigger] events[i],
            states[i + 1],
            actions[i + 1],
        )
}

/// A tool is called only by a node that is not refused, with the tool and the
/// arguments of its input, once its server's addresses were admitted, its server
/// was connected to, and its server had opened a session.
pub proof fn law_tools_are_called_in_open_sessions(
    input: NodeInput,
    refused: Option<Seq<char>>,
    client_version: Seq<char>,
    states: Seq<ToolState>,
    actions: Seq<ToolAction>,
    events: Seq<ToolEvent>,
    k: int,
)
    requires
        is_run(input, refused, client_version, states, actions, events),
        0 <= k < actions.len(),
        actions[k] matches ToolAction::Send(r) && r.params matches Some(
            RequestParams::ToolCall { name, arguments },
        ),
    ensures
        refused is None,
        k == 4,
        events[0] matches ToolEvent::Checked(Ok(_)),
        events[1] matches ToolEvent::Connected(Ok(_)),
        events[2] matches ToolEvent::Replied(Ok(response)) && response.error is None,
        actions[k] matches ToolAction::Send(r) && r.params matches Some(
            RequestParams::ToolCall { name, arguments },
        ) && text_setting(input, "tool_name"@) == Some(name@) && json::members_view(arguments@)
            == tool_arguments(input),
{
    assert(k > 0);
    assert(proceeds(client_version, states[k - 1], events[k - 1], states[k], actions[k]));
    lemma_steps_come_in_order(input, refused, client_version, states, actions, events, k - 1);
    assert(proceeds(client_version, states[0], events[0], states[1], actions[1]));
    assert(proceeds(client_version, states[1], events[1], states[2], actions[2]));
    assert(proceeds(client_version, states[2], events[2], states[3], actions[3]));
}

proof fn lemma_steps_come_in_order(
    input: NodeInput,
    refused: Option<Seq<char>>,
    client_version: Seq<char>,
    states: Seq<ToolState>,
    actions: Seq<ToolAction>,
    events: Seq<ToolEvent>,
    k: int,
)
    requires
        is_run(input, refused, client_version, states, actions, events),
        0 <= k < states.len(),
    ensures
        states[k] matches ToolState::Checking(call) ==> k == 0 && refused is None && is_call_of(
            call,
            input,
        ),
        states[k] matches ToolState::Connecting(call) ==> k == 1 && refused is None && is_call_of(
            call,
            input,
        ),
        states[k] matches ToolState::Opening(call) ==> k == 2 && refused is None && is_call_of(
            call,
            input,
        ),
        states[k] matches ToolState::Announcing(call) ==> k == 3 && refused is None && is_call_of(
            call,
            input,
        ),
    decreases k,
{
    if k > 0 {
        assert(proceeds(client_version, states[k - 1], events[k - 1], states[k], actions[k]));
        lemma_steps_come_in_order(input, refused, client_version, states, actions, events, k - 1);
    }
}

/// A server URL that the node accepts goes over HTTPS, or to this machine where
/// that is permitted.
pub proof fn law_accepted_server_url_is_encrypted(parts: weburl::UrlModel, allow_localhost: bool)
    requires
        server_url_refused(Ok(parts), allow_localhost) is None,
    ensures
        parts.scheme == "https"@ || (parts.scheme == "http"@ && allow_localhost
            && is_loopback_target(parts)),
{
}

/// The members hold the same under each key, one by one.
pub open spec fn same_members(given: Seq<JsonMember>, members: Seq<JsonMember>) -> bool {
    &&& given.len() == members.len()
    &&& forall|i: int|
        0 <= i < members.len() ==> (#[trigger] given[i]).key@ == members[i].key@
            && given[i].value@ == members[i].value@
}

/// The arguments of a call are the node's input, member by member, however many
/// there are; a node without input calls with none.
pub proof fn law_arguments_are_the_whole_input(call: ToolCall, input: NodeInput)
    requires
        is_call_of(call, input),
    ensures
        input.input is Some ==> same_members(call.arguments@, input.input->0@),
        input.input is None ==> call.arguments@.len() == 0,
{
    json::law_members_are_modelled_one_by_one(call.arguments@);
    if let Some(members) = input.input {
        json::law_members_are_modelled_one_by_one(members@);
        assert(json::members_view(call.arguments@) == json::members_view(members@));
        assert forall|i: int| 0 <= i < members@.len() implies (#[trigger] call.arguments@[i]).key@
            == members@[i].key@ && call.arguments@[i].value@ == members@[i].value@ by {
            assert(json::members_view(call.arguments@)[i] == json::members_view(members@)[i]);
        }
    }
}

/// Whatever a node sends as a tool call carries its whole input as the arguments,
/// and the name of its tool.
pub proof fn law_tools_get_the_whole_input(
    input: NodeInput,
    refused: Option<Seq<char>>,
    client_version: Seq<char>,
    states: Seq<ToolState>,
    actions: Seq<ToolAction>,
    events: Seq<ToolEvent>,
    k: int,
)
    requires
        is_run(input, refused, client_version, states, actions, events),
        0 <= k < actions.len(),
        actions[k] matches ToolAction::Send(r) && r.params matches Some(
            RequestParams::ToolCall { name, arguments },
        ),
    ensures
        actions[k] matches ToolAction::Send(r) && r.params matches Some(
            RequestParams::ToolCall { name, arguments },
        ) && r.method@ == "tools/call"@ && (input.input is Some ==> same_members(
            arguments@,
            input.input->0@,
        )) && (input.input is None ==> arguments@.len() == 0),
{
    assert(k > 0);
    assert(proceeds(client_version, states[k - 1], events[k - 1], states[k], actions[k]));
    lemma_steps_come_in_order(input, refused, client_version, states, actions, events, k - 1);
    let call = states[k - 1]->Announcing_0;
    law_arguments_are_the_whole_input(call, input);
}

/// A setting is that of the configuration where it has one, and else that of the
/// parameters.
pub proof fn law_configuration_comes_before_parameters(input: NodeInput, key: Seq<char>)
    ensures
        input.config is Some && json::member(json::members_view(input.config->0@), key) is Some
            ==> setting(input, key) == json::member(json::members_view(input.config->0@), key),
        (input.config is None || json::member(json::members_view(input.config->0@), key) is None)
            && input.parameters is Some ==> setting(input, key) == json::member(
            json::members_view(input.parameters->0@),
            key,
        ),
        (input.config is None || json::member(json::members_view(input.config->0@), key) is None)
            && input.parameters is None ==> setting(input, key) is None,
        text_setting(input, key) matches Some(s) ==> setting(input, key) == Some(
            json::Json::Text(s),
        ),
        text_setting(input, key) is None ==> setting(input, key) is None || !(setting(
            input,
            key,
        )->0 is Text),
{
}

/// A call goes to the server and the tool that the settings name, and may reach
/// this machine only where the node is set to allow that.
pub proof fn law_call_is_what_the_settings_name(call: ToolCall, input: NodeInput)
    requires
        is_call_of(call, input),
    ensures
        setting(input, "server_url"@) == Some(json::Json::Text(call.server_url@)),
        setting(input, "tool_name"@) == Some(json::Json::Text(call.tool_name@)),
        call.localhost_policy == McpLocalhostPolicy::AllowForDev <==> setting(
            input,
            "allow_localhost"@,
        ) == Some(json::Json::Bool(true)),
{
}

/// A node is refused for the first setting that is missing or wrong, and only then.
pub proof fn law_refusal_names_the_setting(input: NodeInput)
    ensures
        text_setting(input, "server_url"@) is None ==> input_refused(input) == Some(
            "mcp_tool: "@ + "server_url"@ + " is required"@,
        ),
        text_setting(input, "server_url"@) is Some && text_setting(input, "tool_name"@) is None
            ==> input_refused(input) == Some("mcp_tool: "@ + "tool_name"@ + " is required"@),
        text_setting(input, "server_url"@) is Some && text_setting(input, "tool_name"@) is Some && (
        setting(input, "allow_localhost"@) is None || setting(input, "allow_localhost"@)->0 is Bool)
            ==> input_refused(input) is None,
        text_setting(input, "server_url"@) is Some && text_setting(input, "tool_name"@) is Some
            && setting(input, "allow_localhost"@) is Some && !(setting(
            input,
            "allow_localhost"@,
        )->0 is Bool) ==> input_refused(input) == Some(
            "mcp_tool: "@ + "allow_localhost"@ + " must be a boolean"@,
        ),
{
}

/// A server URL is refused where it does not parse, where it is not encrypted and
/// does not lead to this machine with leave to, and where it is for another
/// protocol; every other one is accepted.
pub proof fn law_server_urls_are_accepted_or_refused(
    parsed: Result<weburl::UrlModel, Seq<char>>,
    allow_localhost: bool,
)
    ensures
        parsed matches Err(e) ==> server_url_refused(parsed, allow_localhost) == Some(
            "mcp_tool: invalid URL: "@ + e,
        ),
        parsed matches Ok(parts) ==> (parts.scheme == "https"@ ==> server_url_refused(
            parsed,
            allow_localhost,
        ) is None),
        parsed matches Ok(parts) ==> (parts.scheme == "http"@ ==> (server_url_refused(
            parsed,
            allow_localhost,
        ) is None <==> allow_localhost && is_loopback_target(parts))),
        parsed matches Ok(parts) ==> (parts.scheme == "http"@ && !(allow_localhost
            && is_loopback_target(parts)) ==> server_url_refused(parsed, allow_localhost) == Some(
            "mcp_tool: server_url must use HTTPS unless allow_localhost is enabled for local dev"@,
        )),
        parsed matches Ok(parts) ==> (parts.scheme != "http"@ && parts.scheme != "https"@
            ==> server_url_refused(parsed, allow_localhost) == Some(
            "mcp_tool: server_url scheme must be http or https"@,
        )),
{
    reveal_strlit("http");
    reveal_strlit("https");
    assert("http"@.len() != "https"@.len());
}

/// A URL leads to this machine where its host is a loopback address, or the name
/// `localhost` in any case.
pub proof fn law_this_machine_is_loopback_or_localhost(parts: weburl::UrlModel)
    ensures
        parts.host is Ipv4 || parts.host is Ipv6 ==> (is_loopback_target(parts)
            <==> weburl::is_loopback_address(parts.host)),
        !(parts.host is Ipv4) && !(parts.host is Ipv6) && parts.host_text is None
            ==> !is_loopback_target(parts),
        !(parts.host is Ipv4) && !(parts.host is Ipv6) && parts.host_text == Some("localhost"@)
            ==> is_loopback_target(parts),
        !(parts.host is Ipv4) && !(parts.host is Ipv6) && parts.host_text is Some ==> (
        is_loopback_target(parts) <==> text::ascii_lowercase(parts.host_text->0) == "localhost"@),
{
    reveal_strlit("localhost");
    assert(text::ascii_lowercase("localhost"@) =~= "localhost"@);
}

/// A tool call goes out as JSON with the name of the tool and all of its arguments.
pub proof fn law_tool_call_is_written_whole(request: JsonRpcRequest)
    requires
        request.params matches Some(RequestParams::ToolCall { name, arguments }),
    ensures
        ({
            let said = request_json(request);
            let params = json::json_get(said, "params"@);
            let tool = request.params->0->name;
            let arguments = request.params->0->arguments@;
            &&& json::json_get(said, "jsonrpc"@) == Some(json::Json::Text(request.jsonrpc@))
            &&& json::json_get(said, "method"@) == Some(json::Json::Text(request.method@))
            &&& request.id matches Some(n) ==> json::json_get(said, "id"@) == Some(
                json::Json::Unsigned(n),
            )
            &&& params is Some
            &&& json::json_get(params->0, "name"@) == Some(json::Json::Text(tool@))
            &&& json::json_get(params->0, "arguments"@) == Some(
                json::Json::Object(json::members_view(arguments)),
            )
        }),
{
    lemma_request_members(request);
    reveal_strlit("name");
    reveal_strlit("arguments");
    assert("name"@.len() != "arguments"@.len());
    let members = params_json(request.params->0)->Object_0;
    json::law_first_member_is_found(members, 0);
    json::law_first_member_is_found(members, 1);
}

proof fn lemma_request_members(request: JsonRpcRequest)
    ensures
        json::json_get(request_json(request), "jsonrpc"@) == Some(
            json::Json::Text(request.jsonrpc@),
        ),
        json::json_get(request_json(request), "method"@) == Some(json::Json::Text(request.method@)),
        request.id matches Some(n) ==> json::json_get(request_json(request), "id"@) == Some(
            json::Json::Unsigned(n),
        ),
        request.id is None ==> json::json_get(request_json(request), "id"@) == Some(
            json::Json::Null,
        ),
        request.params matches Some(params) ==> json::json_get(request_json(request), "params"@)
            == Some(params_json(params)),
        request.params is None ==> json::json_get(request_json(request), "params"@) is None,
{
    reveal_strlit("jsonrpc");
    reveal_strlit("id");
    reveal_strlit("method");
    reveal_strlit("params");
    assert("jsonrpc"@.len() == 7 && "id"@.len() == 2 && "method"@.len() == 6 && "params"@.len()
        == 6);
    assert("method"@[0] == 'm' && "params"@[0] == 'p');
    let members = request_json(request)->Object_0;
    json::law_first_member_is_found(members, 0);
    json::law_first_member_is_found(members, 1);
    json::law_first_member_is_found(members, 2);
    if request.params is Some {
        json::law_first_member_is_found(members, 3);
    } else {
        json::law_missing_member_is_not_found(request_json(request), "params"@);
    }
}

/// The request that opens a session goes out with the protocol, no capabilities,
/// and the client's name and version; a notification goes out without an id and
/// without parameters.
pub proof fn law_session_requests_are_written_whole(
    open: JsonRpcRequest,
    announce: JsonRpcRequest,
    client_version: Seq<char>,
)
    requires
        opens_session(open, client_version),
        announces_session(announce),
    ensures
        ({
            let said = request_json(open);
            let params = json::json_get(said, "params"@)->0;
            let client = json::json_get(params, "clientInfo"@)->0;
            &&& json::json_get(said, "jsonrpc"@) == Some(json::Json::Text("2.0"@))
            &&& json::json_get(said, "method"@) == Some(json::Json::Text("initialize"@))
            &&& json::json_get(said, "id"@) == Some(json::Json::Unsigned(1))
            &&& json::json_get(params, "protocolVersion"@) == Some(json::Json::Text("2024-11-05"@))
            &&& json::json_get(params, "capabilities"@) == Some(json::Json::Object(Seq::empty()))
            &&& json::json_get(client, "name"@) == Some(json::Json::Text("orbflow"@))
            &&& json::json_get(client, "version"@) == Some(json::Json::Text(client_version))
        }),
        json::json_get(request_json(announce), "jsonrpc"@) == Some(json::Json::Text("2.0"@)),
        json::json_get(request_json(announce), "method"@) == Some(
            json::Json::Text("notifications/initialized"@),
        ),
        json::json_get(request_json(announce), "id"@) == Some(json::Json::Null),
        json::json_get(request_json(announce), "params"@) is None,
{
    lemma_request_members(open);
    lemma_request_members(announce);
    reveal_strlit("protocolVersion");
    reveal_strlit("capabilities");
    reveal_strlit("clientInfo");
    reveal_strlit("name");
    reveal_strlit("version");
    assert("protocolVersion"@.len() == 15 && "capabilities"@.len() == 12 && "clientInfo"@.len()
        == 10 && "name"@.len() == 4 && "version"@.len() == 7);
    let members = params_json(open.params->0)->Object_0;
    json::law_first_member_is_found(members, 0);
    json::law_first_member_is_found(members, 1);
    json::law_first_member_is_found(members, 2);
    let client = members[2].1->Object_0;
    json::law_first_member_is_found(client, 0);
    json::law_first_member_is_found(client, 1);
}

/// One more block adds its text behind a line break, the first text without one,
/// and a block of another kind adds nothing.
pub proof fn law_texts_are_joined_in_order(content: Seq<McpContent>, text: String)
    ensures
        joined_texts(Seq::<McpContent>::empty()).len() == 0,
        joined_texts(content.push(McpContent::Other)) == joined_texts(content),
        (forall|i: int| 0 <= i < content.len() ==> (#[trigger] content[i]) is Other)
            ==> joined_texts(content.push(McpContent::Text { text })) == text@,
        (exists|i: int| 0 <= i < content.len() && (#[trigger] content[i]) is Text) ==> joined_texts(
            content.push(McpContent::Text { text }),
        ) == joined_texts(content) + "\n"@ + text@,
{
    lemma_text_blocks_count(content);
    let blocks = text_blocks(content);
    assert(content.push(McpContent::Other).drop_last() =~= content);
    assert(content.push(McpContent::Text { text }).drop_last() =~= content);
    let more = blocks.push(text@);
    assert(text_blocks(content.push(McpContent::Text { text })) == more);
    assert(more.drop_last() =~= blocks);
}

proof fn lemma_text_blocks_count(content: Seq<McpContent>)
    ensures
        text_blocks(content).len() > 0 <==> exists|i: int|
            0 <= i < content.len() && (#[trigger] content[i]) is Text,
    decreases content.len(),
{
    if content.len() > 0 {
        let rest = content.drop_last();
        lemma_text_blocks_count(rest);
        if content.last() is Text {
            assert(content[content.len() - 1] is Text);
        } else {
            if exists|i: int| 0 <= i < rest.len() && (#[trigger] rest[i]) is Text {
                let i = choose|i: int| 0 <= i < rest.len() && (#[trigger] rest[i]) is Text;
                assert(content[i] is Text);
            }
            if exists|i: int| 0 <= i < content.len() && (#[trigger] content[i]) is Text {
                let i = choose|i: int| 0 <= i < content.len() && (#[trigger] content[i]) is Text;
                assert(rest[i] is Text);
            }
        }
    }
}

/// A node gives out the joined texts, whether the tool reports an error, and the
/// blocks; it fails with the texts exactly where the tool reports an error.
pub proof fn law_output_is_what_the_tool_returned(
    output: NodeOutput,
    result: McpToolResult,
    raw_content: json::Json,
)
    requires
        is_output_of(output, result, raw_content),
    ensures
        output.data is Some,
        ({
            let data = json::Json::Object(json::members_view(output.data->0@));
            &&& json::json_get(data, "content"@) == Some(
                json::Json::Text(joined_texts(result.content@)),
            )
            &&& json::json_get(data, "is_error"@) == Some(json::Json::Bool(result.is_error))
            &&& json::json_get(data, "raw_content"@) == Some(raw_content)
        }),
        output.error is Some <==> result.is_error,
        output.error is Some ==> output.error->0@ == joined_texts(result.content@),
{
    reveal_strlit("content");
    reveal_strlit("is_error");
    reveal_strlit("raw_content");
    assert("content"@.len() == 7 && "is_error"@.len() == 8 && "raw_content"@.len() == 11);
    let members = json::members_view(output.data->0@);
    json::law_first_member_is_found(members, 0);
    json::law_first_member_is_found(members, 1);
    json::law_first_member_is_found(members, 2);
}

/// Whatever fails on the way ends the node with just that error.
pub proof fn law_failures_end_the_node(
    client_version: Seq<char>,
    state: ToolState,
    cause: OrbflowError,
    next: ToolState,
    action: ToolAction,
)
    ensures
        state is Checking && proceeds(
            client_version,
            state,
            ToolEvent::Checked(Err(cause)),
            next,
            action,
        ) ==> next is Ended && action == ToolAction::Finish(Err(cause)),
        state is Connecting && proceeds(
            client_version,
            state,
            ToolEvent::Connected(Err(cause)),
            next,
            action,
        ) ==> next is Ended && action == ToolAction::Finish(Err(cause)),
        (state is Opening || state is Calling) && proceeds(
            client_version,
            state,
            ToolEvent::Replied(Err(cause)),
            next,
            action,
        ) ==> next is Ended && action == ToolAction::Finish(Err(cause)),
{
}

/// What the server says against a session or a call is what the node fails with,
/// and a result is read as it came.
pub proof fn law_replies_are_passed_on(
    client_version: Seq<char>,
    state: ToolState,
    response: JsonRpcResponse,
    next: ToolState,
    action: ToolAction,
)
    requires
        proceeds(client_version, state, ToolEvent::Replied(Ok(response)), next, action),
    ensures
        state is Opening && response.error is Some ==> next is Ended && action is Finish
            && action->Finish_0 is Err && action->Finish_0->Err_0 is Internal
            && action->Finish_0->Err_0->Internal_0@ == "MCP initialize failed: "@
            + response.error->0@,
        state matches ToolState::Calling(tool) ==> (response.error is Some ==> next is Ended
            && action is Finish && action->Finish_0 is Err && action->Finish_0->Err_0 is Internal
            && action->Finish_0->Err_0->Internal_0@ == "MCP tools/call '"@ + tool@ + "' failed: "@
            + response.error->0@),
        state is Calling && response.error is None ==> next is Reading && action is Read,
        state is Calling && response.error is None && response.result is Some ==> action->Read_0@
            == response.result->0@,
        state is Calling && response.error is None && response.result is None
            ==> action->Read_0@ is Null,
{
}

/// A server is connected to under the URL and the policy that were checked.
pub proof fn law_checked_servers_are_connected_to(
    client_version: Seq<char>,
    call: ToolCall,
    next: ToolState,
    action: ToolAction,
)
    requires
        proceeds(
            client_version,
            ToolState::Checking(call),
            ToolEvent::Checked(Ok(())),
            next,
            action,
        ),
    ensures
        next == ToolState::Connecting(call),
        action is Connect,
        action matches ToolAction::Connect { server_url, localhost_policy } && server_url@
            == call.server_url@ && localhost_policy == call.localhost_policy,
{
}

/// A node does not call its server where a setting is against it, and else where the
/// server's URL is.
pub proof fn law_settings_come_before_the_url(
    input: NodeInput,
    parsed: Result<weburl::UrlModel, Seq<char>>,
)
    ensures
        input_refused(input) is Some ==> start_refused(input, parsed) == input_refused(input),
        input_refused(input) is None ==> start_refused(input, parsed) == server_url_refused(
            parsed,
            setting(input, "allow_localhost"@) == Some(json::Json::Bool(true)),
        ),
{
}

/// A node that is not refused starts by having the addresses of its server checked,
/// under the URL and the leave that it is set to; one that is refused is over.
pub proof fn law_nodes_start_with_their_server(
    input: NodeInput,
    refused: Option<Seq<char>>,
    state: ToolState,
    action: ToolAction,
)
    requires
        begins(input, refused, state, action),
    ensures
        refused matches Some(message) ==> state is Ended && action is Finish && action->Finish_0 is Err
            && action->Finish_0->Err_0 is InvalidNodeConfig
            && action->Finish_0->Err_0->InvalidNodeConfig_0@ == message,
        refused is None ==> (state matches ToolState::Checking(call) && is_call_of(call, input)),
        refused is None ==> (action matches ToolAction::CheckAddresses {
            server_url,
            allow_localhost,
        } && setting(input, "server_url"@) == Some(json::Json::Text(server_url@)) && (
        allow_localhost <==> setting(input, "allow_localhost"@) == Some(json::Json::Bool(true)))),
{
}

/// An open connection is used to open a session, an open session is announced, and
/// once it was announced, whatever came of that, the tool is called.
pub proof fn law_sessions_are_opened_and_used(
    client_version: Seq<char>,
    call: ToolCall,
    response: JsonRpcResponse,
    announced: Result<JsonRpcResponse, OrbflowError>,
    next: ToolState,
    action: ToolAction,
)
    ensures
        proceeds(
            client_version,
            ToolState::Connecting(call),
            ToolEvent::Connected(Ok(())),
            next,
            action,
        ) ==> next == ToolState::Opening(call) && action is Send && opens_session(
            action->Send_0,
            client_version,
        ),
        response.error is None && proceeds(
            client_version,
            ToolState::Opening(call),
            ToolEvent::Replied(Ok(response)),
            next,
            action,
        ) ==> next == ToolState::Announcing(call) && action is Send && announces_session(
            action->Send_0,
        ),
        proceeds(
            client_version,
            ToolState::Announcing(call),
            ToolEvent::Replied(announced),
            next,
            action,
        ) ==> next is Calling && next->Calling_0@ == call.tool_name@ && action is Send
            && action->Send_0.jsonrpc@ == "2.0"@ && action->Send_0.method@ == "tools/call"@ && action->Send_0.id == Some(2u64) && (
        action->Send_0.params matches Some(RequestParams::ToolCall { name, arguments }) && name@
            == call.tool_name@ && arguments == call.arguments),
{
}

/// What was read of a result is the node's output, and what could not be read is its
/// error.
pub proof fn law_read_results_are_given_out(
    client_version: Seq<char>,
    read: Result<(McpToolResult, JsonValue), String>,
    next: ToolState,
    action: ToolAction,
)
    requires
        proceeds(client_version, ToolState::Reading, ToolEvent::Read(read), next, action),
    ensures
        next is Ended,
        action is Finish,
        read matches Err(reason) ==> action->Finish_0 is Err && action->Finish_0->Err_0 is Internal
            && action->Finish_0->Err_0->Internal_0@ == "MCP result parse error: "@ + reason@,
        read matches Ok(given) ==> action->Finish_0 is Ok && is_output_of(
            action->Finish_0->Ok_0,
            given.0,
            given.1@,
        ),
{
}

/// The schema names the settings that the node reads and the members that it gives
/// out, each with its type; what the node cannot do without is required.
pub proof fn law_schema_names_the_fields()
    ensures
        schema_inputs().len() == 2,
        schema_inputs()[0].key == "server_url"@,
        schema_inputs()[0].label == "MCP Server URL"@,
        schema_inputs()[1].key == "tool_name"@,
        schema_inputs()[1].label == "Tool Name"@,
        forall|i: int|
            0 <= i < 2 ==> (#[trigger] schema_inputs()[i]).required && schema_inputs()[i].field_type
                == FieldType::Text && schema_inputs()[i].default is None
                && schema_inputs()[i].choices.len() == 0
                && schema_inputs()[i].credential_type is None,
        schema_outputs().len() == 3,
        schema_outputs()[0].key == "content"@,
        schema_outputs()[0].label == "Content"@,
        schema_outputs()[0].field_type == FieldType::Text,
        schema_outputs()[1].key == "is_error"@,
        schema_outputs()[1].label == "Is Error"@,
        schema_outputs()[1].field_type == FieldType::Boolean,
        schema_outputs()[2].key == "raw_content"@,
        schema_outputs()[2].label == "Raw Content"@,
        schema_outputs()[2].field_type == FieldType::Object,
        forall|i: int|
            0 <= i < 3 ==> !(#[trigger] schema_outputs()[i]).required
                && schema_outputs()[i].default is None && schema_outputs()[i].choices.len() == 0
                && schema_outputs()[i].credential_type is None,
        schema_settings().len() == 1,
        schema_settings()[0].key == "allow_localhost"@,
        schema_settings()[0].label == "Allow Localhost"@,
        schema_settings()[0].field_type == FieldType::Boolean,
        !schema_settings()[0].required,
        schema_settings()[0].default == Some(json::Json::Bool(false)),
        schema_inputs()[0].description == Some("URL of the MCP server (HTTP transport)"@),
        schema_inputs()[1].description == Some("Name of the MCP tool to call"@),
        schema_outputs()[0].description == Some("Text content returned by the tool"@),
        schema_outputs()[1].description == Some("Whether the tool call returned an error"@),
        schema_outputs()[2].description == Some("Full MCP content blocks (text and images)"@),
        schema_settings()[0].description == Some(
            "Allow HTTP loopback MCP servers for local development"@,
        ),
{
}

/// A field of a schema is modelled by what it holds, and a list of them one by one.
pub proof fn law_fields_are_modelled(v: Seq<FieldSchema>, i: int)
    requires
        0 <= i < v.len(),
    ensures
        fields(v).len() == v.len(),
        fields(v)[i].key == v[i].key@,
        fields(v)[i].label == v[i].label@,
        fields(v)[i].field_type == v[i].field_type,
        fields(v)[i].required == v[i].required,
        fields(v)[i].description == text::opt_text(v[i].description),
        fields(v)[i].choices == text::texts(v[i].choices@),
        fields(v)[i].credential_type == text::opt_text(v[i].credential_type),
        v[i].default is Some ==> fields(v)[i].default == Some(v[i].default->0@),
        v[i].default is None ==> fields(v)[i].default is None,
{
}

} // verus!
