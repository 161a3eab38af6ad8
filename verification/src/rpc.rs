//! JSON-RPC over TCP: requests, responses, and what a request asks of the engine.

use crate::crypto;
use crate::error::OrbflowError;
use crate::execution::InstanceId;
use crate::frame;
use crate::frame::{FrameProgress, MAX_RPC_FRAME_BYTES, NEWLINE};
use crate::json;
use crate::json::{Json, JsonMember, JsonValue};
use crate::text;
use vstd::prelude::*;

verus! {

/// Creates a workflow.
#[derive(Debug)]
pub struct CreateWorkflowRequest {
    pub definition: Vec<u8>,
}

/// Asks for a workflow.
#[derive(Debug)]
pub struct GetWorkflowRequest {
    pub id: String,
}

/// A workflow.
#[derive(Debug)]
pub struct WorkflowResponse {
    pub data: Vec<u8>,
}

/// Asks for a page of workflows.
#[derive(Debug)]
pub struct ListRequest {
    pub offset: i32,
    pub limit: i32,
}

/// A page of workflows.
#[derive(Debug)]
pub struct ListWorkflowsResponse {
    pub items: Vec<Vec<u8>>,
    pub total: i64,
}

/// Starts a workflow.
#[derive(Debug)]
pub struct StartWorkflowRequest {
    pub workflow_id: String,
    pub owner_id: Option<String>,
    pub input: Vec<u8>,
}

/// Asks for an instance.
#[derive(Debug)]
pub struct GetInstanceRequest {
    pub id: String,
}

/// Cancels an instance.
#[derive(Debug)]
pub struct CancelInstanceRequest {
    pub id: String,
}

/// An instance.
#[derive(Debug)]
pub struct InstanceResponse {
    pub data: Vec<u8>,
}

/// Envelope of a request.
#[derive(Debug)]
pub struct RpcRequest {
    pub method: String,
    pub body: JsonValue,
}

/// Envelope of a response.
#[derive(Debug)]
pub struct RpcResponse {
    pub data: Option<JsonValue>,
    pub error: Option<RpcError>,
}

/// An error in a response.
#[derive(Debug)]
pub struct RpcError {
    pub code: String,
    pub message: String,
}

/// What a response says: data, or an error code and message. One that nothing of
/// this module makes may say both, or neither.
pub enum Reply {
    Data(Json),
    Error { code: Seq<char>, message: Seq<char> },
    Both { data: Json, code: Seq<char>, message: Seq<char> },
    Neither,
}

impl View for RpcResponse {
    type V = Reply;

    open spec fn view(&self) -> Reply {
        match (self.data, self.error) {
            (Some(data), None) => Reply::Data(data@),
            (None, Some(e)) => Reply::Error { code: e.code@, message: e.message@ },
            (Some(data), Some(e)) => Reply::Both {
                data: data@,
                code: e.code@,
                message: e.message@,
            },
            (None, None) => Reply::Neither,
        }
    }
}

/// A reply with the code `INVALID_ARGUMENT`.
pub open spec fn invalid_argument(message: Seq<char>) -> Reply {
    Reply::Error { code: "INVALID_ARGUMENT"@, message }
}

/// A response that carries data.
pub fn ok_response(data: JsonValue) -> (r: RpcResponse)
    ensures
        r@ == Reply::Data(data@),
{
    RpcResponse { data: Some(data), error: None }
}

/// A response that carries an error.
pub fn error_response(code: &str, message: String) -> (r: RpcResponse)
    ensures
        r@ == (Reply::Error { code: code@, message: message@ }),
{
    RpcResponse { data: None, error: Some(RpcError { code: code.to_owned(), message }) }
}

/// The response code for an error.
pub open spec fn error_code(e: OrbflowError, is_validation_error: bool) -> Seq<char> {
    if is_validation_error {
        "INVALID_ARGUMENT"@
    } else {
        match e {
            OrbflowError::NotFound => "NOT_FOUND"@,
            OrbflowError::AlreadyExists => "ALREADY_EXISTS"@,
            OrbflowError::Conflict => "ABORTED"@,
            OrbflowError::Forbidden(_) => "PERMISSION_DENIED"@,
            OrbflowError::Cancelled => "CANCELLED"@,
            OrbflowError::Timeout => "DEADLINE_EXCEEDED"@,
            _ => "INTERNAL"@,
        }
    }
}

/// Maps an error to a response. `is_validation_error` says whether the error is
/// the caller's, and `message` is its text.
pub fn orbflow_error_to_response(e: &OrbflowError, is_validation_error: bool, message: String) -> (r:
    RpcResponse)
    ensures
        r@ == (Reply::Error { code: error_code(*e, is_validation_error), message: message@ }),
{
    let code = if is_validation_error {
        "INVALID_ARGUMENT"
    } else {
        match e {
            OrbflowError::NotFound => "NOT_FOUND",
            OrbflowError::AlreadyExists => "ALREADY_EXISTS",
            OrbflowError::Conflict => "ABORTED",
            OrbflowError::Forbidden(_) => "PERMISSION_DENIED",
            OrbflowError::Cancelled => "CANCELLED",
            OrbflowError::Timeout => "DEADLINE_EXCEEDED",
            _ => "INTERNAL",
        }
    };
    error_response(code, message)
}

/// The limit on frames and byte arrays in decimal, as the responses give it.
pub open spec fn frame_limit_text() -> Seq<char> {
    text::decimal(MAX_RPC_FRAME_BYTES as nat)
}

/// The answer to a frame that is longer than the limit.
pub fn frame_too_large_response() -> (r: RpcResponse)
    ensures
        r@ == (Reply::Error {
            code: "RESOURCE_EXHAUSTED"@,
            message: "request frame exceeds "@ + frame_limit_text() + " bytes"@,
        }),
{
    let mut message = "request frame exceeds ".to_owned();
    text::push_decimal(&mut message, MAX_RPC_FRAME_BYTES as u64);
    message.append(" bytes");
    error_response("RESOURCE_EXHAUSTED", message)
}

/// Seconds that a peer has for each piece of a frame.
pub const RPC_READ_DEADLINE_SECS: u64 = 30;

/// The answer to a frame that did not come in time.
pub fn read_deadline_response() -> (r: RpcResponse)
    ensures
        r@ == (Reply::Error {
            code: "DEADLINE_EXCEEDED"@,
            message: "request read deadline exceeded after "@ + text::decimal(
                RPC_READ_DEADLINE_SECS as nat,
            ) + "s"@,
        }),
{
    let mut message = "request read deadline exceeded after ".to_owned();
    text::push_decimal(&mut message, RPC_READ_DEADLINE_SECS);
    message.append("s");
    error_response("DEADLINE_EXCEEDED", message)
}

/// The answer to a frame that is no request, for the given reason.
pub fn invalid_request_response(reason: &str) -> (r: RpcResponse)
    ensures
        r@ == invalid_argument("invalid request: "@ + reason@),
{
    let mut message = "invalid request: ".to_owned();
    message.append(reason);
    error_response("INVALID_ARGUMENT", message)
}

/// What a frame leads to.
#[derive(Debug)]
pub enum FrameOutcome {
    /// Answer with this and read the next frame.
    Respond(RpcResponse),
    /// The envelope of an authenticated request.
    Request(JsonValue),
}

/// The token that an envelope carries: its `auth_token` text.
pub open spec fn provided_token(envelope: Json) -> Option<Seq<char>> {
    json::json_text_member(envelope, "auth_token"@)
}

/// The envelope may pass: no token is asked for, or it carries exactly that token.
pub open spec fn is_authenticated(envelope: Json, auth_token: Option<Seq<char>>) -> bool {
    match auth_token {
        Some(expected) => provided_token(envelope) == Some(expected),
        None => true,
    }
}

/// What becomes of a frame, given what the JSON parser made of it.
pub open spec fn frame_outcome(
    parsed: Result<Json, Seq<char>>,
    auth_token: Option<Seq<char>>,
    outcome: FrameOutcome,
) -> bool {
    match parsed {
        Err(e) => outcome matches FrameOutcome::Respond(r) && r@ == invalid_argument(
            "invalid request: "@ + e,
        ),
        Ok(envelope) => if is_authenticated(envelope, auth_token) {
            outcome matches FrameOutcome::Request(v) && v@ == envelope
        } else {
            outcome matches FrameOutcome::Respond(r) && r@ == (Reply::Error {
                code: "UNAUTHENTICATED"@,
                message: "unauthorized"@,
            })
        },
    }
}

/// What becomes of a frame, given what the JSON parser made of it.
pub fn handle_parsed_frame(parsed: Result<JsonValue, String>, auth_token: Option<&str>) -> (r:
    FrameOutcome)
    ensures
        frame_outcome(
            match parsed {
                Ok(v) => Ok(v@),
                Err(e) => Err(e@),
            },
            text::opt_str(auth_token),
            r,
        ),
{
    let envelope = match parsed {
        Ok(v) => v,
        Err(e) => return FrameOutcome::Respond(invalid_request_response(e.as_str())),
    };
    if let Some(expected) = auth_token {
        let is_valid = match envelope.text_member("auth_token") {
            Some(provided) => crypto::same_secret(provided, expected),
            None => false,
        };
        if !is_valid {
            return FrameOutcome::Respond(
                error_response("UNAUTHENTICATED", "unauthorized".to_owned()),
            );
        }
    }
    FrameOutcome::Request(envelope)
}

/// A request goes through exactly when no token is asked for, or its envelope is an
/// object whose `auth_token` is that very text; else it is answered as unauthorized.
pub proof fn law_token_is_compared_whole(
    parsed: Result<Json, Seq<char>>,
    auth_token: Option<Seq<char>>,
    outcome: FrameOutcome,
)
    requires
        frame_outcome(parsed, auth_token, outcome),
    ensures
        parsed is Ok && (auth_token is None || json::json_get(parsed->Ok_0, "auth_token"@) == Some(
            Json::Text(auth_token->0),
        )) <==> outcome is Request,
        outcome is Request ==> outcome->Request_0@ == parsed->Ok_0,
        parsed is Err ==> outcome is Respond && outcome->Respond_0@ == (Reply::Error {
            code: "INVALID_ARGUMENT"@,
            message: "invalid request: "@ + parsed->Err_0,
        }),
        parsed is Ok && outcome is Respond ==> outcome->Respond_0@ == (Reply::Error {
            code: "UNAUTHENTICATED"@,
            message: "unauthorized"@,
        }),
{
}

/// Parses a frame and checks the token of its envelope, where the server asks
/// for one.
pub fn handle_frame(frame: &[u8], auth_token: Option<&str>) -> (r: FrameOutcome)
    ensures
        frame_outcome(json::json_parsed(frame@), text::opt_str(auth_token), r),
{
    handle_parsed_frame(json::parse_json(frame), auth_token)
}

/// The value is the envelope of a request: an object with a `method` text, or an
/// array of the method and, where it has one, the body.
pub open spec fn is_request(envelope: Json) -> bool {
    match envelope {
        Json::Object(members) => json::member(members, "method"@) matches Some(m) && m is Text,
        Json::Array(items) => 0 < items.len() <= 2 && items[0] is Text,
        _ => false,
    }
}

/// The method that a request asks for.
pub open spec fn request_method(envelope: Json) -> Seq<char> {
    match envelope {
        Json::Array(items) => items[0]->Text_0,
        _ => json::json_get(envelope, "method"@)->0->Text_0,
    }
}

/// The body of a request, null where it has none.
pub open spec fn request_body(envelope: Json) -> Json {
    match envelope {
        Json::Array(items) => if items.len() == 2 {
            items[1]
        } else {
            Json::Null
        },
        _ => match json::json_get(envelope, "body"@) {
            Some(body) => body,
            None => Json::Null,
        },
    }
}

/// The request in an envelope; where it is none, the answer, with the mismatch
/// that the deserializer found.
pub fn parse_request(envelope: &JsonValue, mismatch: &str) -> (r: Result<RpcRequest, RpcResponse>)
    ensures
        match r {
            Ok(req) => is_request(envelope@) && req.method@ == request_method(envelope@)
                && req.body@ == request_body(envelope@),
            Err(resp) => !is_request(envelope@) && resp@ == invalid_argument(
                "invalid request: "@ + mismatch@,
            ),
        },
{
    if let JsonValue::Array(items) = envelope {
        proof {
            json::lemma_array_view(*items);
        }
        if 0 < items.len() && items.len() <= 2 {
            if let Some(method) = items[0].as_str() {
                let body = if items.len() == 2 {
                    items[1].copy()
                } else {
                    JsonValue::Null
                };
                return Ok(RpcRequest { method: method.to_owned(), body });
            }
        }
    } else if let Some(method) = envelope.text_member("method") {
        let body = match envelope.get("body") {
            Some(body) => body.copy(),
            None => JsonValue::Null,
        };
        return Ok(RpcRequest { method: method.to_owned(), body });
    }
    Err(invalid_request_response(mismatch))
}

/// The JSON-RPC TCP server, as far as its rules read it.
#[derive(Debug)]
pub struct GrpcServer {
    pub auth_token: Option<String>,
    pub stopped: bool,
}

/// What the server's listener comes to.
#[derive(Debug)]
pub enum ServeEvent {
    /// The address could not be bound.
    NotBound { addr: String, cause: String },
    /// A connection came in.
    Accepted,
    /// A connection could not be accepted.
    NotAccepted(String),
    /// The signal to stop came.
    Stopping,
}

/// What the server does next.
#[derive(Debug)]
pub enum ServeStep {
    /// It serves the connection and goes on.
    ServeConnection,
    /// It ends.
    End,
    /// It ends with this error.
    Fail(OrbflowError),
}

impl GrpcServer {
    /// A server.
    ///
    /// When `auth_token` is `Some(t)`, every JSON-RPC request must include an
    /// `"auth_token"` field in the envelope that matches `t` exactly. Requests
    /// that fail this check receive an `UNAUTHENTICATED` error response.
    /// When `auth_token` is `None`, authentication is disabled.
    pub fn new(auth_token: Option<String>) -> (r: GrpcServer)
        ensures
            r.auth_token == auth_token,
            !r.stopped,
    {
        GrpcServer { auth_token, stopped: false }
    }

    /// What the server does on what its listener comes to.
    pub fn serve(&self, event: ServeEvent) -> (r: ServeStep)
        ensures
            match event {
                ServeEvent::NotBound { addr, cause } => r matches ServeStep::Fail(
                    OrbflowError::Internal(e),
                ) && e@ == "json-rpc: bind "@ + addr@ + ": "@ + cause@,
                ServeEvent::Accepted => r is ServeConnection,
                ServeEvent::NotAccepted(cause) => r matches ServeStep::Fail(
                    OrbflowError::Internal(e),
                ) && e@ == "json-rpc: accept: "@ + cause@,
                ServeEvent::Stopping => r is End,
            },
    {
        match event {
            ServeEvent::NotBound { addr, cause } => {
                let mut e = "json-rpc: bind ".to_owned();
                e.append(addr.as_str());
                e.append(": ");
                e.append(cause.as_str());
                ServeStep::Fail(OrbflowError::Internal(e))
            },
            ServeEvent::Accepted => ServeStep::ServeConnection,
            ServeEvent::NotAccepted(cause) => {
                let mut e = "json-rpc: accept: ".to_owned();
                e.append(cause.as_str());
                ServeStep::Fail(OrbflowError::Internal(e))
            },
            ServeEvent::Stopping => ServeStep::End,
        }
    }

    /// Signals the server to stop.
    pub fn stop(&mut self)
        ensures
            final(self).stopped,
            final(self).auth_token == old(self).auth_token,
    {
        self.stopped = true;
    }

    /// What becomes of a frame that a connection received.
    pub fn handle_connection(&self, frame: &[u8]) -> (r: FrameOutcome)
        ensures
            frame_outcome(json::json_parsed(frame@), text::opt_text(self.auth_token), r),
    {
        match &self.auth_token {
            Some(token) => handle_frame(frame, Some(token.as_str())),
            None => handle_frame(frame, None),
        }
    }
}

/// The error of a connection: `json-rpc: <what>: <cause>`.
pub fn connection_error(what: &str, cause: &str) -> (r: OrbflowError)
    ensures
        r matches OrbflowError::Internal(e) && e@ == "json-rpc: "@ + what@ + ": "@ + cause@,
{
    let mut e = "json-rpc: ".to_owned();
    e.append(what);
    e.append(": ");
    e.append(cause);
    OrbflowError::Internal(e)
}

/// What a connection does next.
#[derive(Debug)]
pub enum ConnectionStep {
    /// Read on.
    ReadMore,
    /// Handle the frame that was read.
    Handle,
    /// Close the connection.
    Close,
    /// Answer with this, then close the connection.
    RespondAndClose(RpcResponse),
    /// Give the connection up with this error.
    Fail(OrbflowError),
}

/// What a read of a connection comes to.
#[derive(Debug)]
pub enum ReadEvent {
    /// Bytes came in, and the read of the frame has come so far.
    Progress(FrameProgress),
    /// The read failed.
    Failed(String),
    /// Nothing came in for [`RPC_READ_DEADLINE_SECS`].
    TimedOut,
}

/// What a connection does next, given what its read came to.
pub fn connection_step(event: ReadEvent) -> (r: ConnectionStep)
    ensures
        match event {
            ReadEvent::Progress(FrameProgress::Frame { consumed }) => r is Handle,
            ReadEvent::Progress(FrameProgress::More { consumed }) => r is ReadMore,
            ReadEvent::Progress(FrameProgress::Eof) => r is Close,
            ReadEvent::Progress(FrameProgress::TooLarge) => r matches
                ConnectionStep::RespondAndClose(resp) && resp@ == (Reply::Error {
                code: "RESOURCE_EXHAUSTED"@,
                message: "request frame exceeds "@ + frame_limit_text() + " bytes"@,
            }),
            ReadEvent::Progress(FrameProgress::ClosedMidFrame) => r matches ConnectionStep::Fail(
                OrbflowError::Internal(m),
            ) && m@ == "json-rpc: connection closed mid-frame"@,
            ReadEvent::Failed(cause) => r matches ConnectionStep::Fail(OrbflowError::Internal(m))
                && m@ == "json-rpc: "@ + "read"@ + ": "@ + cause@,
            ReadEvent::TimedOut => r matches ConnectionStep::RespondAndClose(resp) && resp@ == (
            Reply::Error {
                code: "DEADLINE_EXCEEDED"@,
                message: "request read deadline exceeded after "@ + text::decimal(
                    RPC_READ_DEADLINE_SECS as nat,
                ) + "s"@,
            }),
        },
{
    match event {
        ReadEvent::Progress(progress) => match progress {
            FrameProgress::Frame { consumed: _ } => ConnectionStep::Handle,
            FrameProgress::More { consumed: _ } => ConnectionStep::ReadMore,
            FrameProgress::Eof => ConnectionStep::Close,
            FrameProgress::TooLarge => ConnectionStep::RespondAndClose(frame_too_large_response()),
            FrameProgress::ClosedMidFrame => ConnectionStep::Fail(
                OrbflowError::Internal("json-rpc: connection closed mid-frame".to_owned()),
            ),
        },
        ReadEvent::Failed(cause) => ConnectionStep::Fail(connection_error("read", cause.as_str())),
        ReadEvent::TimedOut => ConnectionStep::RespondAndClose(read_deadline_response()),
    }
}

/// The methods that the transport offers.
#[derive(Debug, Clone, Copy, PartialEq, Eq, Structural)]
pub enum RpcMethod {
    CreateWorkflow,
    GetWorkflow,
    ListWorkflows,
    StartWorkflow,
    GetInstance,
    CancelInstance,
}

/// The method with the name.
pub open spec fn method_named(name: Seq<char>) -> Option<RpcMethod> {
    if name == "CreateWorkflow"@ {
        Some(RpcMethod::CreateWorkflow)
    } else if name == "GetWorkflow"@ {
        Some(RpcMethod::GetWorkflow)
    } else if name == "ListWorkflows"@ {
        Some(RpcMethod::ListWorkflows)
    } else if name == "StartWorkflow"@ {
        Some(RpcMethod::StartWorkflow)
    } else if name == "GetInstance"@ {
        Some(RpcMethod::GetInstance)
    } else if name == "CancelInstance"@ {
        Some(RpcMethod::CancelInstance)
    } else {
        None
    }
}

/// Finds the method that a request asks for; an unknown one is answered with
/// `UNIMPLEMENTED`.
pub fn dispatch(method: &str) -> (r: Result<RpcMethod, RpcResponse>)
    ensures
        match method_named(method@) {
            Some(m) => r == Ok::<RpcMethod, RpcResponse>(m),
            None => r is Err && r->Err_0@ == (Reply::Error {
                code: "UNIMPLEMENTED"@,
                message: "unknown method: "@ + method@,
            }),
        },
{
    if text::same_text(method, "CreateWorkflow") {
        Ok(RpcMethod::CreateWorkflow)
    } else if text::same_text(method, "GetWorkflow") {
        Ok(RpcMethod::GetWorkflow)
    } else if text::same_text(method, "ListWorkflows") {
        Ok(RpcMethod::ListWorkflows)
    } else if text::same_text(method, "StartWorkflow") {
        Ok(RpcMethod::StartWorkflow)
    } else if text::same_text(method, "GetInstance") {
        Ok(RpcMethod::GetInstance)
    } else if text::same_text(method, "CancelInstance") {
        Ok(RpcMethod::CancelInstance)
    } else {
        let mut message = "unknown method: ".to_owned();
        message.append(method);
        Err(error_response("UNIMPLEMENTED", message))
    }
}

/// Names what base64's standard engine makes of a text: the bytes, or the text
/// of the error.
pub uninterp spec fn base64_decoded(text: Seq<char>) -> Result<Seq<u8>, Seq<char>>;

/// `base64::engine::general_purpose::STANDARD.decode`: the bytes that the text
/// encodes, or the error's text.
#[verifier::external_body]
fn decode_base64(s: &str) -> (r: Result<Vec<u8>, String>)
    ensures
        match r {
            Ok(bytes) => base64_decoded(s@) == Ok::<Seq<u8>, Seq<char>>(bytes@),
            Err(e) => base64_decoded(s@) == Err::<Seq<u8>, Seq<char>>(e@),
        },
{
    base64::Engine::decode(&base64::engine::general_purpose::STANDARD, s).map_err(|e| e.to_string())
}

/// The bytes of a field, given what the base64 decoder made of its text.
pub open spec fn base64_field_bytes(
    decoded: Result<Seq<u8>, Seq<char>>,
    field: Seq<char>,
) -> Result<Seq<u8>, Reply> {
    match decoded {
        Ok(bytes) => Ok(bytes),
        Err(e) => Err(invalid_argument(field + " is not valid base64: "@ + e)),
    }
}

/// `<field>[<index>]`.
pub open spec fn item_name(field: Seq<char>, index: nat) -> Seq<char> {
    field + "["@ + text::decimal(index) + "]"@
}

/// The bytes that a list of numbers stands for; the first item that is no byte
/// is refused.
pub open spec fn number_bytes(items: Seq<Json>, field: Seq<char>) -> Result<Seq<u8>, Reply>
    decreases items.len(),
{
    if items.len() == 0 {
        Ok(Seq::empty())
    } else {
        let index = (items.len() - 1) as nat;
        match number_bytes(items.drop_last(), field) {
            Err(reply) => Err(reply),
            Ok(bytes) => match items.last() {
                Json::Unsigned(n) => if n <= 255 {
                    Ok(bytes.push(n as u8))
                } else {
                    Err(
                        invalid_argument(
                            item_name(field, index) + " is outside byte range 0..=255"@,
                        ),
                    )
                },
                _ => Err(
                    invalid_argument(item_name(field, index) + " must be an integer in 0..=255"@),
                ),
            },
        }
    }
}

/// The bytes of a field that is an array.
pub open spec fn array_field_bytes(items: Seq<Json>, field: Seq<char>) -> Result<Seq<u8>, Reply> {
    if items.len() > MAX_RPC_FRAME_BYTES {
        Err(
            Reply::Error {
                code: "RESOURCE_EXHAUSTED"@,
                message: field + " byte array exceeds "@ + frame_limit_text() + " bytes"@,
            },
        )
    } else {
        number_bytes(items, field)
    }
}

/// The bytes of a field: a base64 text, or an array of byte values.
pub open spec fn field_bytes(value: Json, field: Seq<char>) -> Result<Seq<u8>, Reply> {
    match value {
        Json::Text(s) => base64_field_bytes(base64_decoded(s), field),
        Json::Array(items) => array_field_bytes(items, field),
        _ => Err(invalid_argument(field + " must be a base64 string or byte array"@)),
    }
}

/// `r` holds these bytes, or answers this.
pub open spec fn bytes_or_reply(
    r: Result<Vec<u8>, RpcResponse>,
    expected: Result<Seq<u8>, Reply>,
) -> bool {
    match expected {
        Ok(bytes) => r is Ok && r->Ok_0@ == bytes,
        Err(reply) => r is Err && r->Err_0@ == reply,
    }
}

/// The bytes of a field, given what the base64 decoder made of its text.
pub fn base64_field(decoded: Result<Vec<u8>, String>, field: &str) -> (r: Result<
    Vec<u8>,
    RpcResponse,
>)
    ensures
        bytes_or_reply(
            r,
            base64_field_bytes(
                match decoded {
                    Ok(bytes) => Ok(bytes@),
                    Err(e) => Err(e@),
                },
                field@,
            ),
        ),
{
    match decoded {
        Ok(bytes) => Ok(bytes),
        Err(e) => {
            let mut message = field.to_owned();
            message.append(" is not valid base64: ");
            message.append(e.as_str());
            Err(error_response("INVALID_ARGUMENT", message))
        },
    }
}

fn item_refused(field: &str, index: usize, complaint: &str) -> (r: RpcResponse)
    ensures
        r@ == invalid_argument(item_name(field@, index as nat) + complaint@),
{
    let mut message = field.to_owned();
    message.append("[");
    text::push_decimal(&mut message, index as u64);
    message.append("]");
    message.append(complaint);
    error_response("INVALID_ARGUMENT", message)
}

proof fn lemma_number_bytes_stops(items: Seq<Json>, field: Seq<char>, k: int)
    requires
        0 <= k <= items.len(),
        number_bytes(items.take(k), field) is Err,
    ensures
        number_bytes(items, field) == number_bytes(items.take(k), field),
    decreases items.len() - k,
{
    if k == items.len() {
        assert(items.take(k) =~= items);
    } else {
        assert(items.take(k + 1).drop_last() =~= items.take(k));
        lemma_number_bytes_stops(items, field, k + 1);
    }
}

/// The bytes of a field that is an array.
pub fn array_field(items: &Vec<JsonValue>, field: &str) -> (r: Result<Vec<u8>, RpcResponse>)
    ensures
        bytes_or_reply(
            r,
            array_field_bytes(Seq::new(items@.len(), |i: int| items@[i]@), field@),
        ),
{
    let ghost all = Seq::new(items@.len(), |i: int| items@[i]@);
    if items.len() > MAX_RPC_FRAME_BYTES {
        let mut message = field.to_owned();
        message.append(" byte array exceeds ");
        text::push_decimal(&mut message, MAX_RPC_FRAME_BYTES as u64);
        message.append(" bytes");
        return Err(error_response("RESOURCE_EXHAUSTED", message));
    }
    let mut out: Vec<u8> = Vec::new();
    let mut idx: usize = 0;
    assert(all.take(0) =~= Seq::<Json>::empty());
    while idx < items.len()
        invariant
            idx <= items.len() <= MAX_RPC_FRAME_BYTES,
            all == Seq::new(items@.len(), |i: int| items@[i]@),
            number_bytes(all.take(idx as int), field@) == Ok::<Seq<u8>, Reply>(out@),
        decreases items.len() - idx,
    {
        proof {
            assert(all.take(idx + 1).drop_last() =~= all.take(idx as int));
            assert(all.take(idx + 1).last() == items@[idx as int]@);
        }
        match &items[idx] {
            JsonValue::Unsigned(n) => {
                if *n > 255 {
                    proof {
                        lemma_number_bytes_stops(all, field@, idx + 1);
                    }
                    return Err(item_refused(field, idx, " is outside byte range 0..=255"));
                }
                out.push(*n as u8);
            },
            _ => {
                proof {
                    lemma_number_bytes_stops(all, field@, idx + 1);
                }
                return Err(item_refused(field, idx, " must be an integer in 0..=255"));
            },
        }
        idx += 1;
    }
    assert(all.take(all.len() as int) =~= all);
    Ok(out)
}

/// The bytes of a field: a base64 text, or an array of byte values.
pub fn decode_rpc_bytes(value: &JsonValue, field: &str) -> (r: Result<Vec<u8>, RpcResponse>)
    ensures
        bytes_or_reply(r, field_bytes(value@, field@)),
{
    match value {
        JsonValue::Text(s) => base64_field(decode_base64(s.as_str()), field),
        JsonValue::Array(items) => {
            proof {
                json::lemma_array_view(*items);
            }
            array_field(items, field)
        },
        _ => {
            let mut message = field.to_owned();
            message.append(" must be a base64 string or byte array");
            Err(error_response("INVALID_ARGUMENT", message))
        },
    }
}

/// The definition that a `CreateWorkflow` body carries, given what the whole body
/// is written as: the bytes of its `definition` field, else the whole body.
pub open spec fn definition_bytes(
    body: Json,
    written: Result<Seq<u8>, Seq<char>>,
) -> Result<Seq<u8>, Reply> {
    match json::json_get(body, "definition"@) {
        Some(value) => field_bytes(value, "definition"@),
        None => whole_body_bytes(written),
    }
}

/// The definition that is a whole body.
pub open spec fn whole_body_bytes(written: Result<Seq<u8>, Seq<char>>) -> Result<Seq<u8>, Reply> {
    match written {
        Ok(bytes) => Ok(bytes),
        Err(_) => Err(invalid_argument("missing or invalid definition"@)),
    }
}

/// The definition that is a whole body, given what the body is written as.
pub fn whole_body_definition(written: Result<Vec<u8>, String>) -> (r: Result<Vec<u8>, RpcResponse>)
    ensures
        bytes_or_reply(
            r,
            whole_body_bytes(
                match written {
                    Ok(bytes) => Ok(bytes@),
                    Err(e) => Err(e@),
                },
            ),
        ),
{
    match written {
        Ok(bytes) => Ok(bytes),
        Err(_) => Err(
            error_response("INVALID_ARGUMENT", "missing or invalid definition".to_owned()),
        ),
    }
}

/// The definition that a `CreateWorkflow` body carries. Where that is the whole
/// body, it is read as the body.
pub fn handle_create_workflow(body: &JsonValue) -> (r: Result<Vec<u8>, RpcResponse>)
    ensures
        bytes_or_reply(r, definition_bytes(body@, json::json_written(body@))),
        r matches Ok(bytes) ==> (json::json_get(body@, "definition"@) is None && json::reads_back(
            body@,
        ) ==> json::parses_to(bytes@, body@)),
{
    match body.get("definition") {
        Some(value) => decode_rpc_bytes(value, "definition"),
        None => whole_body_definition(json::write_json(body)),
    }
}

/// The text of a field of the body, empty where it is no text.
pub open spec fn body_text(body: Json, field: Seq<char>) -> Seq<char> {
    match json::json_text_member(body, field) {
        Some(s) => s,
        None => Seq::empty(),
    }
}

/// The text of a field of the body, empty where it is no text.
pub fn text_field(body: &JsonValue, field: &str) -> (r: String)
    ensures
        r@ == body_text(body@, field@),
{
    match body.text_member(field) {
        Some(s) => s.to_owned(),
        None => String::new(),
    }
}

/// The workflow that a `GetWorkflow` body asks for.
pub fn handle_get_workflow(body: &JsonValue) -> (r: String)
    ensures
        r@ == body_text(body@, "id"@),
{
    text_field(body, "id")
}

/// `r` is the instance that the body names, or the refusal where it names none.
pub open spec fn names_instance(body: Json, r: Result<InstanceId, RpcResponse>) -> bool {
    if body_text(body, "id"@).len() == 0 {
        r is Err && r->Err_0@ == invalid_argument("instance id is required"@)
    } else {
        r is Ok && r->Ok_0.0@ == body_text(body, "id"@)
    }
}

/// The instance that a `GetInstance` body asks for.
pub fn handle_get_instance(body: &JsonValue) -> (r: Result<InstanceId, RpcResponse>)
    ensures
        names_instance(body@, r),
{
    let id = text_field(body, "id");
    if id.as_str().is_empty() {
        return Err(error_response("INVALID_ARGUMENT", "instance id is required".to_owned()));
    }
    Ok(InstanceId(id))
}

/// The instance that a `CancelInstance` body names. Once it is cancelled, the
/// answer is the instance as it is then.
pub fn handle_cancel_instance(body: &JsonValue) -> (r: Result<InstanceId, RpcResponse>)
    ensures
        names_instance(body@, r),
{
    handle_get_instance(body)
}

/// A number of the body that is a 32-bit integer.
pub open spec fn body_i32(body: Json, field: Seq<char>) -> Option<i32> {
    match json::json_get(body, field) {
        Some(value) => match json::json_i64(value) {
            Some(n) => if i32::MIN <= n <= i32::MAX {
                Some(n as i32)
            } else {
                None
            },
            None => None,
        },
        None => None,
    }
}

fn i32_field(body: &JsonValue, field: &str) -> (r: Option<i32>)
    ensures
        r == body_i32(body@, field@),
{
    match body.get(field) {
        Some(value) => match value.as_i64() {
            Some(n) => if i32::MIN as i64 <= n && n <= i32::MAX as i64 {
                Some(n as i32)
            } else {
                None
            },
            None => None,
        },
        None => None,
    }
}

/// `n`, or the nearer end of the range where it lies outside.
pub open spec fn clamped(n: i32, low: i32, high: i32) -> i32 {
    if n < low {
        low
    } else if n > high {
        high
    } else {
        n
    }
}

/// The page that a `ListWorkflows` body asks for: an offset that is not
/// negative, zero where none is given, and a limit of 1 to 100,
/// `default_page_size` where none is given.
pub fn handle_list_workflows(body: &JsonValue, default_page_size: i32) -> (r: ListRequest)
    ensures
        r.offset == match body_i32(body@, "offset"@) {
            Some(n) => clamped(n, 0, i32::MAX),
            None => 0,
        },
        r.limit == match body_i32(body@, "limit"@) {
            Some(n) => clamped(n, 1, 100),
            None => clamped(default_page_size, 1, 100),
        },
{
    let offset: i32 = match i32_field(body, "offset") {
        Some(n) => if n < 0 {
            0
        } else {
            n
        },
        None => 0,
    };
    let wanted: i32 = match i32_field(body, "limit") {
        Some(n) => n,
        None => default_page_size,
    };
    let limit: i32 = if wanted < 1 {
        1
    } else if wanted > 100 {
        100
    } else {
        wanted
    };
    ListRequest { offset, limit }
}

/// The input of a workflow start, as far as the request body gives it.
#[derive(Debug)]
pub enum StartInput {
    /// These members.
    Members(Vec<JsonMember>),
    /// What these bytes hold, once they are parsed.
    Encoded(Vec<u8>),
}

/// `input` is what the body gives for the input of a start.
pub open spec fn start_input(body: Json, input: Result<StartInput, RpcResponse>) -> bool {
    match json::json_get(body, "input"@) {
        None => input matches Ok(StartInput::Members(m)) && m@.len() == 0,
        Some(Json::Null) => input matches Ok(StartInput::Members(m)) && m@.len() == 0,
        Some(Json::Object(members)) => input matches Ok(StartInput::Members(m))
            && json::members_view(m@) == members,
        Some(value) => if value is Text || value is Array {
            match field_bytes(value, "input"@) {
                Ok(bytes) => input matches Ok(StartInput::Encoded(b)) && b@ == bytes,
                Err(reply) => input is Err && input->Err_0@ == reply,
            }
        } else {
            input is Err && input->Err_0@ == invalid_argument(
                "input must be an object, base64 string, byte array, or null"@,
            )
        },
    }
}

/// The input of a workflow start: an object as it stands, the bytes of a base64
/// text or byte array, nothing where there is none.
pub fn parse_start_input(body: &JsonValue) -> (r: Result<StartInput, RpcResponse>)
    ensures
        start_input(body@, r),
{
    let input_value = match body.get("input") {
        Some(value) => value,
        None => return Ok(StartInput::Members(Vec::new())),
    };
    match input_value {
        JsonValue::Null => Ok(StartInput::Members(Vec::new())),
        JsonValue::Object(members) => {
            proof {
                json::lemma_object_view(*members);
            }
            Ok(StartInput::Members(json::copy_members(members)))
        },
        JsonValue::Text(_) | JsonValue::Array(_) => match decode_rpc_bytes(input_value, "input") {
            Ok(bytes) => Ok(StartInput::Encoded(bytes)),
            Err(resp) => Err(resp),
        },
        _ => Err(
            error_response(
                "INVALID_ARGUMENT",
                "input must be an object, base64 string, byte array, or null".to_owned(),
            ),
        ),
    }
}

/// The owner under whose name a start is to run: the trimmed `owner_id` text;
/// none where the field is missing or null; refused where it is anything else.
pub open spec fn start_owner(body: Json) -> Result<Option<Seq<char>>, Reply> {
    let refused = invalid_argument("owner_id must be a non-empty string"@);
    match json::json_get(body, "owner_id"@) {
        None => Ok(None),
        Some(Json::Null) => Ok(None),
        Some(Json::Text(s)) => if text::trimmed(s).len() > 0 {
            Ok(Some(text::trimmed(s)))
        } else {
            Err(refused)
        },
        Some(_) => Err(refused),
    }
}

/// The owner under whose name a start is to run.
pub fn parse_owner(body: &JsonValue) -> (r: Result<Option<String>, RpcResponse>)
    ensures
        match start_owner(body@) {
            Ok(owner) => r is Ok && text::opt_text(r->Ok_0) == owner,
            Err(reply) => r is Err && r->Err_0@ == reply,
        },
{
    let owner_id = match body.get("owner_id") {
        Some(value) => value,
        None => return Ok(None),
    };
    match owner_id {
        JsonValue::Null => return Ok(None),
        JsonValue::Text(s) => {
            let owner = text::trim(s.as_str());
            if !owner.as_str().is_empty() {
                return Ok(Some(owner));
            }
        },
        _ => {},
    }
    Err(error_response("INVALID_ARGUMENT", "owner_id must be a non-empty string".to_owned()))
}

/// What a `StartWorkflow` request leads to.
#[derive(Debug)]
pub enum StartStep {
    /// Answer with this.
    Respond(RpcResponse),
    /// Parse these bytes as the input, then go on with [`start_with_input`].
    ParseInput(Vec<u8>),
    /// Start the workflow with this input, for this owner where there is one.
    Start { input: Vec<JsonMember>, owner_id: Option<String> },
}

/// `step` starts the workflow with the input, for the owner that the body names,
/// or answers why it names none.
pub open spec fn starts_with(body: Json, input: Seq<(Seq<char>, Json)>, step: StartStep) -> bool {
    match start_owner(body) {
        Ok(owner) => step matches StartStep::Start { input: members, owner_id }
            && json::members_view(members@) == input && text::opt_text(owner_id) == owner,
        Err(reply) => step matches StartStep::Respond(resp) && resp@ == reply,
    }
}

/// Starts a workflow whose input is known.
pub fn start_with_input(body: &JsonValue, input: Vec<JsonMember>) -> (r: StartStep)
    ensures
        starts_with(body@, json::members_view(input@), r),
{
    match parse_owner(body) {
        Ok(owner_id) => StartStep::Start { input, owner_id },
        Err(resp) => StartStep::Respond(resp),
    }
}

/// The workflow that a `StartWorkflow` body names.
pub fn start_workflow_id(body: &JsonValue) -> (r: String)
    ensures
        r@ == body_text(body@, "workflow_id"@),
{
    text_field(body, "workflow_id")
}

/// What a `StartWorkflow` request leads to, given what became of the workflow id
/// of its body: nothing where it is a valid one, else the answer. The id is
/// looked at first, then the input, then the owner.
pub fn handle_start_workflow(body: &JsonValue, bad_id: Option<RpcResponse>) -> (r: StartStep)
    ensures
        match bad_id {
            Some(resp) => r == StartStep::Respond(resp),
            None => exists|input: Result<StartInput, RpcResponse>|
                #[trigger] start_input(body@, input) && match input {
                    Err(resp) => r matches StartStep::Respond(given) && given@ == resp@,
                    Ok(StartInput::Encoded(bytes)) => r matches StartStep::ParseInput(given)
                        && given@ == bytes@,
                    Ok(StartInput::Members(members)) => starts_with(
                        body@,
                        json::members_view(members@),
                        r,
                    ),
                },
        },
        bad_id is None && json::json_get(body@, "input"@) is Some && json::json_get(
            body@,
            "input"@,
        )->0 is Object ==> {
            let given = json::json_get(body@, "input"@)->0->Object_0;
            &&& r is Start ==> r->input@.len() == given.len() && forall|i: int|
                0 <= i < given.len() ==> (#[trigger] r->input@[i]).key@ == given[i].0
                    && r->input@[i].value@ == given[i].1
            &&& json::json_get(body@, "owner_id"@) is None ==> r is Start && r->owner_id is None
        },
        r is Start && (json::json_get(body@, "input"@) is None || json::json_get(body@, "input"@)
            == Some(Json::Null)) ==> r->input@.len() == 0,
        bad_id is Some ==> r is Respond,
{
    if let Some(resp) = bad_id {
        return StartStep::Respond(resp);
    }
    let input = parse_start_input(body);
    assert(start_input(body@, input));
    match input {
        Err(resp) => StartStep::Respond(resp),
        Ok(StartInput::Encoded(bytes)) => StartStep::ParseInput(bytes),
        Ok(StartInput::Members(members)) => {
            let ghost given = json::members_view(members@);
            let step = start_with_input(body, members);
            proof {
                if step is Start {
                    json::law_members_are_modelled_one_by_one(step->input@);
                    assert(json::members_view(step->input@).len() == given.len());
                }
            }
            step
        },
    }
}

/// The JSON of an error.
pub open spec fn error_json(code: Seq<char>, message: Seq<char>) -> Json {
    Json::Object(seq![("code"@, Json::Text(code)), ("message"@, Json::Text(message))])
}

/// The members of a response: its data and its error, each where it has one.
pub open spec fn response_members(response: RpcResponse) -> Seq<(Seq<char>, Json)> {
    let data = match response.data {
        Some(data) => seq![("data"@, data@)],
        None => Seq::empty(),
    };
    let error = match response.error {
        Some(e) => seq![("error"@, error_json(e.code@, e.message@))],
        None => Seq::empty(),
    };
    data + error
}

impl RpcError {
    /// The error as JSON.
    pub fn to_json(self) -> (r: JsonValue)
        ensures
            r@ == error_json(self.code@, self.message@),
    {
        let ghost code = self.code@;
        let ghost message = self.message@;
        let mut members: Vec<JsonMember> = Vec::new();
        members.push(json::member_of("code", JsonValue::Text(self.code)));
        members.push(json::member_of("message", JsonValue::Text(self.message)));
        proof {
            json::lemma_object_view(members);
            assert(json::members_view(members@) =~= seq![
                ("code"@, Json::Text(code)),
                ("message"@, Json::Text(message)),
            ]);
        }
        JsonValue::Object(members)
    }
}

impl RpcResponse {
    /// The response as JSON.
    pub fn to_json(self) -> (r: JsonValue)
        ensures
            r@ == Json::Object(response_members(self)),
    {
        let ghost expected = response_members(self);
        let mut members: Vec<JsonMember> = Vec::new();
        if let Some(data) = self.data {
            members.push(json::member_of("data", data));
        }
        if let Some(e) = self.error {
            members.push(json::member_of("error", e.to_json()));
        }
        proof {
            json::lemma_object_view(members);
            assert(json::members_view(members@) =~= expected);
        }
        JsonValue::Object(members)
    }
}

/// The line that a response goes out as, given what it is written as.
pub open spec fn response_line(
    r: Result<Vec<u8>, OrbflowError>,
    written: Result<Seq<u8>, Seq<char>>,
) -> bool {
    match written {
        Ok(payload) => r matches Ok(line) && line@ == payload.push(NEWLINE),
        Err(cause) => r matches Err(OrbflowError::Internal(e)) && e@ == "json-rpc: "@
            + "serialize response"@ + ": "@ + cause,
    }
}

/// The line that a response goes out as, given what it is written as.
pub fn written_response(written: Result<Vec<u8>, String>) -> (r: Result<Vec<u8>, OrbflowError>)
    ensures
        response_line(
            r,
            match written {
                Ok(payload) => Ok(payload@),
                Err(e) => Err(e@),
            },
        ),
{
    match written {
        Ok(payload) => Ok(frame::frame_response(payload)),
        Err(e) => Err(connection_error("serialize response", e.as_str())),
    }
}

/// The line that a response goes out as. It is a single one, and is read as the
/// response.
pub fn write_rpc_response(response: RpcResponse) -> (r: Result<Vec<u8>, OrbflowError>)
    ensures
        response_line(r, json::json_written(Json::Object(response_members(response)))),
        r matches Ok(line) ==> line@.len() > 0 && json::is_one_line(line@.drop_last()),
        r matches Ok(line) ==> (json::reads_back(Json::Object(response_members(response)))
            ==> json::parses_to(line@.drop_last(), Json::Object(response_members(response)))),
{
    let written = json::write_json(&response.to_json());
    let r = written_response(written);
    assert(r is Ok ==> r->Ok_0@.drop_last() =~= written->Ok_0@);
    r
}

/// The JSON array of bytes.
pub fn bytes_json(bytes: &Vec<u8>) -> (r: JsonValue)
    ensures
        r@ == Json::Array(byte_array(bytes@)),
{
    let mut items: Vec<JsonValue> = Vec::new();
    let mut i: usize = 0;
    while i < bytes.len()
        invariant
            i <= bytes.len(),
            items@.len() == i,
            forall|j: int| 0 <= j < i ==> (#[trigger] items@[j])@ == Json::Unsigned(bytes@[j] as u64),
        decreases bytes.len() - i,
    {
        items.push(JsonValue::Unsigned(bytes[i] as u64));
        i += 1;
    }
    proof {
        json::lemma_array_view(items);
        assert(Seq::new(items@.len(), |j: int| items@[j]@) =~= byte_array(bytes@));
    }
    JsonValue::Array(items)
}

/// Why the engine did not do what it was asked.
#[derive(Debug)]
pub struct EngineFailure {
    pub error: OrbflowError,
    pub is_validation_error: bool,
    /// The error's text.
    pub message: String,
}

/// The answer of the engine with one workflow or instance, as bytes.
pub fn data_response(outcome: Result<Vec<u8>, EngineFailure>) -> (r: RpcResponse)
    ensures
        r@ == match outcome {
            Ok(bytes) => Reply::Data(
                Json::Object(seq![("data"@, Json::Array(byte_array(bytes@)))]),
            ),
            Err(f) => Reply::Error {
                code: error_code(f.error, f.is_validation_error),
                message: f.message@,
            },
        },
{
    match outcome {
        Ok(bytes) => {
            let mut members: Vec<JsonMember> = Vec::new();
            members.push(json::member_of("data", bytes_json(&bytes)));
            proof {
                json::lemma_object_view(members);
                assert(json::members_view(members@) =~= seq![
                    ("data"@, Json::Array(byte_array(bytes@))),
                ]);
            }
            ok_response(JsonValue::Object(members))
        },
        Err(f) => orbflow_error_to_response(&f.error, f.is_validation_error, f.message),
    }
}

/// A page of workflows.
#[derive(Debug)]
pub struct WorkflowPage {
    /// Each workflow, as bytes.
    pub items: Vec<Vec<u8>>,
    pub total: i64,
}

/// A total as JSON.
pub open spec fn total_json(total: i64) -> Json {
    if total < 0 {
        Json::Negative(total)
    } else {
        Json::Unsigned(total as u64)
    }
}

/// The answer of the engine with a page of workflows.
pub fn list_response(outcome: Result<WorkflowPage, EngineFailure>) -> (r: RpcResponse)
    ensures
        r@ == match outcome {
            Ok(page) => Reply::Data(
                Json::Object(
                    seq![
                        (
                            "items"@,
                            Json::Array(
                                page.items@.map_values(
                                    |bytes: Vec<u8>| Json::Array(byte_array(bytes@)),
                                ),
                            ),
                        ),
                        ("total"@, total_json(page.total)),
                    ],
                ),
            ),
            Err(f) => Reply::Error {
                code: error_code(f.error, f.is_validation_error),
                message: f.message@,
            },
        },
{
    let page = match outcome {
        Ok(page) => page,
        Err(f) => return orbflow_error_to_response(&f.error, f.is_validation_error, f.message),
    };
    let mut items: Vec<JsonValue> = Vec::new();
    let mut i: usize = 0;
    while i < page.items.len()
        invariant
            i <= page.items.len(),
            items@.len() == i,
            forall|j: int|
                0 <= j < i ==> (#[trigger] items@[j])@ == Json::Array(
                    byte_array(page.items@[j]@),
                ),
        decreases page.items.len() - i,
    {
        items.push(bytes_json(&page.items[i]));
        i += 1;
    }
    let total = if page.total < 0 {
        JsonValue::Negative(page.total)
    } else {
        JsonValue::Unsigned(page.total as u64)
    };
    let ghost expected = page.items@.map_values(|bytes: Vec<u8>| Json::Array(byte_array(bytes@)));
    proof {
        json::lemma_array_view(items);
        assert(Seq::new(items@.len(), |j: int| items@[j]@) =~= expected);
    }
    let mut members: Vec<JsonMember> = Vec::new();
    members.push(json::member_of("items", JsonValue::Array(items)));
    members.push(json::member_of("total", total));
    proof {
        json::lemma_object_view(members);
        assert(json::members_view(members@) =~= seq![
            ("items"@, Json::Array(expected)),
            ("total"@, total_json(page.total)),
        ]);
    }
    ok_response(JsonValue::Object(members))
}

/// The JSON array of the byte values.
pub open spec fn byte_array(bytes: Seq<u8>) -> Seq<Json> {
    bytes.map_values(|b: u8| Json::Unsigned(b as u64))
}

/// A byte array reads back as the bytes that it was made from, as long as it is
/// within the limit.
pub proof fn law_byte_array_reads_back(bytes: Seq<u8>, field: Seq<char>)
    requires
        bytes.len() <= MAX_RPC_FRAME_BYTES,
    ensures
        field_bytes(Json::Array(byte_array(bytes)), field) == Ok::<Seq<u8>, Reply>(bytes),
{
    lemma_number_bytes_of(bytes, field);
}

proof fn lemma_number_bytes_of(bytes: Seq<u8>, field: Seq<char>)
    ensures
        number_bytes(byte_array(bytes), field) == Ok::<Seq<u8>, Reply>(bytes),
    decreases bytes.len(),
{
    let items = byte_array(bytes);
    if bytes.len() == 0 {
        assert(bytes =~= Seq::<u8>::empty());
    } else {
        lemma_number_bytes_of(bytes.drop_last(), field);
        assert(items.drop_last() =~= byte_array(bytes.drop_last()));
        assert(bytes =~= bytes.drop_last().push(bytes.last()));
    }
}

/// A response that was written is read as one frame, whatever follows it in the
/// stream, as long as it is within the limit.
pub proof fn law_written_response_is_one_frame(line: Seq<u8>, rest: Seq<u8>)
    requires
        line.len() > 0,
        line.last() == NEWLINE,
        json::is_one_line(line.drop_last()),
        line.len() <= MAX_RPC_FRAME_BYTES + 1,
    ensures
        frame::read_stream(line + rest) == (frame::ReadModel::Frame {
            frame: line.drop_last(),
            taken: line.len() as int,
        }),
{
    let payload = line.drop_last();
    assert(payload.push(NEWLINE) =~= line);
    frame::law_written_response_reads_back(payload, rest);
}

/// With a token configured, a frame reaches the engine only as a JSON document
/// whose envelope carries exactly that token; every other frame is answered.
pub proof fn law_only_the_token_passes(
    parsed: Result<Json, Seq<char>>,
    expected: Seq<char>,
    outcome: FrameOutcome,
)
    requires
        frame_outcome(parsed, Some(expected), outcome),
    ensures
        outcome is Request <==> parsed is Ok && provided_token(parsed->Ok_0) == Some(expected),
        outcome is Request ==> outcome->Request_0@ == parsed->Ok_0,
{
}

/// A response says what it carries and nothing else: data, an error by its code and
/// message, both, or neither.
pub proof fn law_response_says_what_it_carries(response: RpcResponse)
    ensures
        response@ matches Reply::Data(data) ==> {
            let said = Json::Object(response_members(response));
            json::json_get(said, "data"@) == Some(data) && json::json_get(said, "error"@) is None
        },
        response@ matches Reply::Error { code, message } ==> {
            let said = Json::Object(response_members(response));
            json::json_get(said, "data"@) is None && json::json_get(said, "error"@) == Some(
                error_json(code, message),
            )
        },
        response@ matches Reply::Both { data, code, message } ==> {
            let said = Json::Object(response_members(response));
            json::json_get(said, "data"@) == Some(data) && json::json_get(said, "error"@) == Some(
                error_json(code, message),
            )
        },
        response@ is Neither ==> response_members(response).len() == 0,
{
    reveal_strlit("data");
    reveal_strlit("error");
    assert("data"@.len() != "error"@.len());
    reveal_with_fuel(json::member, 3);
    let members = response_members(response);
    if members.len() == 1 {
        assert(members.drop_first() =~= Seq::<(Seq<char>, Json)>::empty());
    } else if members.len() == 2 {
        assert(members.drop_first() =~= seq![members[1]]);
    }
}

/// The owner that a start runs for is never empty and carries no whitespace at
/// its ends.
pub proof fn law_start_owner_is_a_trimmed_name(body: Json)
    ensures
        start_owner(body) matches Ok(Some(owner)) ==> owner.len() > 0 && text::trimmed(owner)
            == owner,
{
    if let Ok(Some(owner)) = start_owner(body) {
        let given = json::json_get(body, "owner_id"@)->0->Text_0;
        text::lemma_trimmed_twice(given);
    }
}

/// A response carries data or an error just as it was made with.
pub proof fn law_responses_carry_what_they_were_made_with(response: RpcResponse)
    ensures
        response@ matches Reply::Data(data) ==> response.data is Some && response.data->0@ == data
            && response.error is None,
        response@ matches Reply::Error { code, message } ==> response.data is None
            && response.error is Some && response.error->0.code@ == code
            && response.error->0.message@ == message,
        response@ is Neither <==> response.data is None && response.error is None,
        response@ is Both <==> response.data is Some && response.error is Some,
{
}

/// An error answers with the code of its kind, and with `INVALID_ARGUMENT` where it
/// is the caller's.
pub proof fn law_errors_answer_with_their_code(e: OrbflowError)
    ensures
        error_code(e, true) == "INVALID_ARGUMENT"@,
        e is NotFound ==> error_code(e, false) == "NOT_FOUND"@,
        e is AlreadyExists ==> error_code(e, false) == "ALREADY_EXISTS"@,
        e is Conflict ==> error_code(e, false) == "ABORTED"@,
        e is Forbidden ==> error_code(e, false) == "PERMISSION_DENIED"@,
        e is Cancelled ==> error_code(e, false) == "CANCELLED"@,
        e is Timeout ==> error_code(e, false) == "DEADLINE_EXCEEDED"@,
        !(e is NotFound || e is AlreadyExists || e is Conflict || e is Forbidden || e is Cancelled
            || e is Timeout) ==> error_code(e, false) == "INTERNAL"@,
{
}

/// An object is a request exactly when its `method` is a text, and then the method
/// is that text and the body what stands under `body`, null where nothing does.
pub proof fn law_object_requests_are_read(envelope: Json)
    requires
        envelope is Object,
    ensures
        is_request(envelope) <==> json::json_get(envelope, "method"@) is Some && json::json_get(
            envelope,
            "method"@,
        )->0 is Text,
        is_request(envelope) ==> json::json_get(envelope, "method"@) == Some(
            Json::Text(request_method(envelope)),
        ),
        json::json_get(envelope, "body"@) is Some ==> json::json_get(envelope, "body"@) == Some(
            request_body(envelope),
        ),
        json::json_get(envelope, "body"@) is None ==> request_body(envelope) is Null,
{
}

/// An array is a request exactly when it is a text alone or with a body behind it.
pub proof fn law_array_requests_are_read(method: Seq<char>, body: Json, items: Seq<Json>)
    ensures
        is_request(Json::Array(seq![Json::Text(method)])),
        request_method(Json::Array(seq![Json::Text(method)])) == method,
        request_body(Json::Array(seq![Json::Text(method)])) is Null,
        is_request(Json::Array(seq![Json::Text(method), body])),
        request_method(Json::Array(seq![Json::Text(method), body])) == method,
        request_body(Json::Array(seq![Json::Text(method), body])) == body,
        items.len() == 0 || items.len() > 2 || !(items[0] is Text) ==> !is_request(
            Json::Array(items),
        ),
{
}

/// What is neither an object nor an array is no request.
pub proof fn law_other_values_are_no_requests(envelope: Json)
    requires
        !(envelope is Object),
        !(envelope is Array),
    ensures
        !is_request(envelope),
{
}

/// Each method is found by its name and by no other.
pub proof fn law_methods_are_found_by_name(name: Seq<char>)
    ensures
        method_named("CreateWorkflow"@) == Some(RpcMethod::CreateWorkflow),
        method_named("GetWorkflow"@) == Some(RpcMethod::GetWorkflow),
        method_named("ListWorkflows"@) == Some(RpcMethod::ListWorkflows),
        method_named("StartWorkflow"@) == Some(RpcMethod::StartWorkflow),
        method_named("GetInstance"@) == Some(RpcMethod::GetInstance),
        method_named("CancelInstance"@) == Some(RpcMethod::CancelInstance),
        method_named(name) matches Some(m) ==> name == match m {
            RpcMethod::CreateWorkflow => "CreateWorkflow"@,
            RpcMethod::GetWorkflow => "GetWorkflow"@,
            RpcMethod::ListWorkflows => "ListWorkflows"@,
            RpcMethod::StartWorkflow => "StartWorkflow"@,
            RpcMethod::GetInstance => "GetInstance"@,
            RpcMethod::CancelInstance => "CancelInstance"@,
        },
{
    reveal_strlit("CreateWorkflow");
    reveal_strlit("GetWorkflow");
    reveal_strlit("ListWorkflows");
    reveal_strlit("StartWorkflow");
    reveal_strlit("GetInstance");
    reveal_strlit("CancelInstance");
    assert("CreateWorkflow"@[0] == 'C' && "CreateWorkflow"@.len() == 14);
    assert("CancelInstance"@[1] == 'a' && "CancelInstance"@.len() == 14);
    assert("CreateWorkflow"@[1] == 'r');
    assert("GetWorkflow"@.len() == 11 && "GetInstance"@.len() == 11);
    assert("GetWorkflow"@[3] == 'W' && "GetInstance"@[3] == 'I');
    assert("ListWorkflows"@.len() == 13 && "StartWorkflow"@.len() == 13);
    assert("ListWorkflows"@[0] == 'L' && "StartWorkflow"@[0] == 'S');
}

/// An array of numbers is read as bytes exactly when each is an integer of one byte,
/// and then byte by byte.
pub proof fn law_byte_values_are_read_one_by_one(items: Seq<Json>, field: Seq<char>)
    ensures
        number_bytes(items, field) is Ok <==> forall|i: int|
            0 <= i < items.len() ==> is_byte(#[trigger] items[i]),
        number_bytes(items, field) matches Ok(bytes) ==> bytes.len() == items.len() && forall|
            i: int,
        |
            0 <= i < items.len() ==> (#[trigger] items[i]) == Json::Unsigned(bytes[i] as u64),
    decreases items.len(),
{
    if items.len() > 0 {
        let rest = items.drop_last();
        law_byte_values_are_read_one_by_one(rest, field);
        assert forall|i: int| 0 <= i < rest.len() implies (#[trigger] rest[i]) == items[i] by {}
        if number_bytes(items, field) is Ok {
            assert forall|i: int| 0 <= i < items.len() implies is_byte(#[trigger] items[i]) by {
                if i < rest.len() {
                    assert(is_byte(rest[i]));
                }
            }
            let bytes = number_bytes(items, field)->Ok_0;
            assert forall|i: int| 0 <= i < items.len() implies (#[trigger] items[i])
                == Json::Unsigned(bytes[i] as u64) by {
                if i < rest.len() {
                    assert(rest[i] == items[i]);
                }
            }
        }
        if forall|i: int| 0 <= i < items.len() ==> is_byte(#[trigger] items[i]) {
            assert forall|i: int| 0 <= i < rest.len() implies is_byte(#[trigger] rest[i]) by {
                assert(is_byte(items[i]));
            }
            assert(is_byte(items[items.len() - 1]));
        }
    }
}

/// The value is an integer of one byte.
pub open spec fn is_byte(v: Json) -> bool {
    v matches Json::Unsigned(n) && n < 256
}

/// The first item that is no byte is the one that is complained about.
pub proof fn law_first_bad_byte_is_named(items: Seq<Json>, field: Seq<char>, bad: int)
    requires
        0 <= bad < items.len(),
        forall|i: int| 0 <= i < bad ==> is_byte(#[trigger] items[i]),
        !is_byte(items[bad]),
    ensures
        number_bytes(items, field) == Err::<Seq<u8>, Reply>(
            Reply::Error {
                code: "INVALID_ARGUMENT"@,
                message: field + "["@ + text::decimal(bad as nat) + "]"@ + if items[bad] is Unsigned {
                    " is outside byte range 0..=255"@
                } else {
                    " must be an integer in 0..=255"@
                },
            },
        ),
{
    let upto = items.take(bad + 1);
    let before = items.take(bad);
    law_byte_values_are_read_one_by_one(before, field);
    assert(upto.drop_last() =~= before);
    assert(upto.last() == items[bad]);
    assert forall|i: int| 0 <= i < before.len() implies is_byte(#[trigger] before[i]) by {
        assert(is_byte(items[i]));
    }
    lemma_number_bytes_stops(items, field, bad + 1);
}

/// A field of bytes is what base64 makes of a text, or the byte values of an array
/// that is not too long; nothing else is taken.
pub proof fn law_byte_fields_are_base64_or_arrays(value: Json, field: Seq<char>)
    ensures
        value matches Json::Text(s) ==> match base64_decoded(s) {
            Ok(bytes) => field_bytes(value, field) == Ok::<Seq<u8>, Reply>(bytes),
            Err(e) => field_bytes(value, field) == Err::<Seq<u8>, Reply>(
                Reply::Error {
                    code: "INVALID_ARGUMENT"@,
                    message: field + " is not valid base64: "@ + e,
                },
            ),
        },
        value matches Json::Array(items) ==> (items.len() <= MAX_RPC_FRAME_BYTES ==> field_bytes(
            value,
            field,
        ) == number_bytes(items, field)),
        value matches Json::Array(items) ==> (items.len() > MAX_RPC_FRAME_BYTES ==> field_bytes(
            value,
            field,
        ) == Err::<Seq<u8>, Reply>(
            Reply::Error {
                code: "RESOURCE_EXHAUSTED"@,
                message: field + " byte array exceeds "@ + text::decimal(
                    MAX_RPC_FRAME_BYTES as nat,
                ) + " bytes"@,
            },
        )),
        !(value is Text) && !(value is Array) ==> field_bytes(value, field) == Err::<
            Seq<u8>,
            Reply,
        >(
            Reply::Error {
                code: "INVALID_ARGUMENT"@,
                message: field + " must be a base64 string or byte array"@,
            },
        ),
{
}

/// A definition is the `definition` field where the body has one, and else what the
/// whole body is written as.
pub proof fn law_definition_is_the_field_or_the_body(
    body: Json,
    written: Result<Seq<u8>, Seq<char>>,
)
    ensures
        json::json_get(body, "definition"@) matches Some(value) ==> definition_bytes(body, written)
            == field_bytes(value, "definition"@),
        json::json_get(body, "definition"@) is None && written is Ok ==> definition_bytes(
            body,
            written,
        ) == Ok::<Seq<u8>, Reply>(written->Ok_0),
        json::json_get(body, "definition"@) is None && written is Err ==> definition_bytes(
            body,
            written,
        ) == Err::<Seq<u8>, Reply>(
            Reply::Error {
                code: "INVALID_ARGUMENT"@,
                message: "missing or invalid definition"@,
            },
        ),
{
}

/// A text field of a body is its text, and empty where it is none.
pub proof fn law_text_fields_are_read_whole(body: Json, field: Seq<char>)
    ensures
        json::json_get(body, field) is Some && json::json_get(body, field)->0 is Text
            ==> json::json_get(body, field) == Some(Json::Text(body_text(body, field))),
        json::json_get(body, field) is None || !(json::json_get(body, field)->0 is Text)
            ==> body_text(body, field).len() == 0,
{
}

/// An instance is named by the `id` of the body, which must not be empty.
pub proof fn law_instance_is_named_by_its_id(body: Json, r: Result<InstanceId, RpcResponse>)
    requires
        names_instance(body, r),
    ensures
        r matches Ok(id) ==> id.0@.len() > 0 && json::json_get(body, "id"@) == Some(
            Json::Text(id.0@),
        ),
        r matches Err(resp) ==> resp@ == (Reply::Error {
            code: "INVALID_ARGUMENT"@,
            message: "instance id is required"@,
        }),
        r is Ok <==> json::json_get(body, "id"@) is Some && json::json_get(body, "id"@)->0 is Text
            && json::json_get(body, "id"@)->0->Text_0.len() > 0,
{
}

/// A number of a body is read where it is an integer of 32 bits, and then exactly.
pub proof fn law_numbers_are_read_exactly(body: Json, field: Seq<char>, n: i32)
    ensures
        json::json_get(body, field) == Some(Json::Unsigned(n as u64)) && n >= 0 ==> body_i32(
            body,
            field,
        ) == Some(n),
        json::json_get(body, field) == Some(Json::Negative(n as i64)) ==> body_i32(body, field)
            == Some(n),
        body_i32(body, field) matches Some(m) ==> json::json_get(body, field) is Some && match (
        json::json_get(body, field)->0) {
            Json::Unsigned(u) => u == m,
            Json::Negative(i) => i == m,
            _ => false,
        },
{
}

/// A clamped number is the one in the range that is nearest.
pub proof fn law_clamped_is_the_nearest(n: i32, low: i32, high: i32, other: i32)
    requires
        low <= other <= high,
    ensures
        low <= clamped(n, low, high) <= high,
        low <= n <= high ==> clamped(n, low, high) == n,
        n < low ==> clamped(n, low, high) == low,
        n > high ==> clamped(n, low, high) == high,
{
}

/// Where the input of a start is an object, the workflow gets each of its members,
/// in their order and with their values, and nothing else.
pub proof fn law_start_input_is_the_whole_object(
    body: Json,
    given: Seq<(Seq<char>, Json)>,
    input: Result<StartInput, RpcResponse>,
)
    requires
        json::json_get(body, "input"@) == Some(Json::Object(given)),
        start_input(body, input),
    ensures
        input is Ok && input->Ok_0 is Members,
        input->Ok_0->Members_0@.len() == given.len(),
        forall|i: int|
            0 <= i < given.len() ==> (#[trigger] input->Ok_0->Members_0@[i]).key@ == given[i].0
                && input->Ok_0->Members_0@[i].value@ == given[i].1,
{
    let members = input->Ok_0->Members_0@;
    assert(json::members_view(members) == given);
    assert forall|i: int| 0 <= i < given.len() implies (#[trigger] members[i]).key@ == given[i].0
        && members[i].value@ == given[i].1 by {
        assert(json::members_view(members)[i] == given[i]);
    }
}

/// Where there is no input, or null, the workflow starts with none; a text or an
/// array is taken as bytes; anything else is refused.
pub proof fn law_other_start_inputs(body: Json, input: Result<StartInput, RpcResponse>)
    requires
        start_input(body, input),
    ensures
        json::json_get(body, "input"@) is None || json::json_get(body, "input"@) == Some(Json::Null)
            ==> input is Ok && input->Ok_0 is Members && input->Ok_0->Members_0@.len() == 0,
        json::json_get(body, "input"@) matches Some(v) ==> (v is Text || v is Array
            ==> match field_bytes(v, "input"@) {
            Ok(bytes) => input is Ok && input->Ok_0 is Encoded && input->Ok_0->Encoded_0@ == bytes,
            Err(reply) => input is Err && input->Err_0@ == reply,
        }),
        json::json_get(body, "input"@) matches Some(v) ==> (v is Bool || v is Unsigned
            || v is Negative || v is Float ==> input is Err && input->Err_0@ == (Reply::Error {
            code: "INVALID_ARGUMENT"@,
            message: "input must be an object, base64 string, byte array, or null"@,
        })),
{
}

/// A start runs for the owner that the body names, without the whitespace around
/// the name, for none where it names none, and not at all where the name is blank
/// or no text. The input is handed on as it is.
pub proof fn law_start_runs_for_the_named_owner(
    body: Json,
    input: Seq<(Seq<char>, Json)>,
    step: StartStep,
)
    requires
        starts_with(body, input, step),
    ensures
        step is Start ==> json::members_view(step->input@) == input,
        json::json_get(body, "owner_id"@) is None || json::json_get(body, "owner_id"@) == Some(
            Json::Null,
        ) ==> step is Start && step->owner_id is None,
        json::json_get(body, "owner_id"@) matches Some(v) ==> (v matches Json::Text(s) ==> (
        text::trimmed(s).len() > 0 ==> step is Start && step->owner_id is Some
            && step->owner_id->0@ == text::trimmed(s))),
        json::json_get(body, "owner_id"@) matches Some(v) ==> ((v matches Json::Text(s)
            && text::trimmed(s).len() == 0) || v is Bool || v is Unsigned || v is Negative
            || v is Float || v is Array || v is Object ==> step is Respond && step->Respond_0@ == (
        Reply::Error {
            code: "INVALID_ARGUMENT"@,
            message: "owner_id must be a non-empty string"@,
        })),
{
}

/// The JSON of bytes has one number for each byte, and that of a total is the total.
pub proof fn law_bytes_and_totals_are_written_exactly(bytes: Seq<u8>, total: i64)
    ensures
        byte_array(bytes).len() == bytes.len(),
        forall|i: int|
            0 <= i < bytes.len() ==> (#[trigger] byte_array(bytes)[i]) == Json::Unsigned(
                bytes[i] as u64,
            ),
        json::json_i64(total_json(total)) == Some(total),
        total >= 0 ==> total_json(total) == Json::Unsigned(total as u64),
{
}

/// The line of a response is what it is written as and a newline.
pub proof fn law_response_line_ends_with_a_newline(
    r: Result<Vec<u8>, OrbflowError>,
    payload: Seq<u8>,
)
    requires
        response_line(r, Ok(payload)),
    ensures
        r is Ok,
        r->Ok_0@.len() == payload.len() + 1,
        r->Ok_0@.last() == 10,
        r->Ok_0@.drop_last() == payload,
{
    assert(payload.push(NEWLINE).drop_last() =~= payload);
}

/// A byte field that was read, or answered, is just that.
pub proof fn law_bytes_or_the_answer(
    r: Result<Vec<u8>, RpcResponse>,
    bytes: Seq<u8>,
    reply: Reply,
)
    ensures
        bytes_or_reply(r, Ok(bytes)) <==> r is Ok && r->Ok_0@ == bytes,
        bytes_or_reply(r, Err(reply)) <==> r is Err && r->Err_0@ == reply,
{
}

/// The JSON of an error says its code and its message, and nothing else.
pub proof fn law_error_json_says_code_and_message(code: Seq<char>, message: Seq<char>)
    ensures
        json::json_get(error_json(code, message), "code"@) == Some(Json::Text(code)),
        json::json_get(error_json(code, message), "message"@) == Some(Json::Text(message)),
        error_json(code, message)->Object_0.len() == 2,
{
    reveal_strlit("code");
    reveal_strlit("message");
    assert("code"@.len() != "message"@.len());
    let members = error_json(code, message)->Object_0;
    json::law_first_member_is_found(members, 0);
    json::law_first_member_is_found(members, 1);
}

/// A response that could not be written is an error with the cause.
pub proof fn law_unwritten_response_is_an_error(
    r: Result<Vec<u8>, OrbflowError>,
    cause: Seq<char>,
)
    requires
        response_line(r, Err(cause)),
    ensures
        r is Err,
        r->Err_0 is Internal,
        r->Err_0->Internal_0@ == "json-rpc: "@ + "serialize response"@ + ": "@ + cause,
{
}

/// The limit is given as the number of bytes of a mebibyte.
pub proof fn law_limit_is_given_in_bytes()
    ensures
        frame_limit_text() == text::decimal(1_048_576),
{
}

} // verus!
