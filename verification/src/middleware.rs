//! HTTP middleware: error envelopes, bearer token authentication and permission
//! checks.

use crate::crypto;
use crate::http;
use crate::http::{ErrorReply, Header, ReplyShape};
use crate::json;
use crate::json::JsonValue;
use crate::lists;
use crate::named;
use crate::text;
use vstd::prelude::*;

verus! {

/// Extracts the key by which requests are counted for rate limiting: the user.
#[derive(Debug, Clone, Copy, PartialEq, Eq)]
pub struct UserKeyExtractor;

/// Authenticated user identity that the auth middleware attaches to a request.
#[derive(Debug, Clone)]
pub struct AuthUser {
    pub user_id: String,
}

impl UserKeyExtractor {
    /// The extractor's name.
    pub fn name(&self) -> (r: String)
        ensures
            r@ == "UserKeyExtractor"@,
    {
        "UserKeyExtractor".to_owned()
    }

    /// The user that the auth middleware attached, else `"anonymous"`.
    pub fn extract(&self, user: Option<&AuthUser>) -> (r: String)
        ensures
            r@ == match user {
                Some(u) => u.user_id@,
                None => "anonymous"@,
            },
    {
        match user {
            Some(u) => u.user_id.clone(),
            None => "anonymous".to_owned(),
        }
    }

    /// The name of a key: the key itself.
    pub fn key_name(&self, key: &str) -> (r: Option<String>)
        ensures
            r is Some,
            r->0@ == key@,
    {
        Some(key.to_owned())
    }
}

/// The longest body of an error response that is read to normalize it.
pub const ERROR_ENVELOPE_BODY_LIMIT: usize = 65_536;

/// Names the phrase that the http crate has for a status code.
pub uninterp spec fn status_phrase(status: u16) -> Option<Seq<char>>;

/// `http::StatusCode::canonical_reason`, through `StatusCode::from_u16`: the
/// standard phrase for a status code; none for a code without one.
#[verifier::external_body]
fn canonical_reason(status: u16) -> (r: Option<String>)
    ensures
        match r {
            Some(phrase) => status_phrase(status) == Some(phrase@),
            None => status_phrase(status) is None,
        },
{
    let code = axum::http::StatusCode::from_u16(status).ok()?;
    code.canonical_reason().map(|phrase| phrase.to_owned())
}

/// The text for a status: its phrase in lower case.
pub open spec fn status_text(phrase: Option<Seq<char>>) -> Seq<char> {
    match phrase {
        Some(p) => text::ascii_lowercase(p),
        None => "request failed"@,
    }
}

/// The text for a status with this phrase.
pub fn phrase_text(phrase: Option<String>) -> (r: String)
    ensures
        r@ == status_text(text::opt_text(phrase)),
{
    match phrase {
        Some(p) => text::to_ascii_lowercase(p.as_str()),
        None => "request failed".to_owned(),
    }
}

/// A JSON object with a `data` and an `error` member.
pub open spec fn is_envelope(value: json::Json) -> bool {
    json::json_get(value, "data"@) is Some && json::json_get(value, "error"@) is Some
}

/// Whether a JSON value is an error envelope.
pub fn value_is_error_envelope(value: &JsonValue) -> (r: bool)
    ensures
        r == is_envelope(value@),
{
    value.get("data").is_some() && value.get("error").is_some()
}

/// Whether a body is a JSON document that is an error envelope.
pub fn is_error_envelope(bytes: &[u8]) -> (r: bool)
    ensures
        r == (json::json_parsed(bytes@) matches Ok(value) && is_envelope(value)),
{
    match json::parse_json(bytes) {
        Ok(value) => value_is_error_envelope(&value),
        Err(_) => false,
    }
}

/// The text of the `error` member, trimmed; none where there is no such text or
/// it is blank.
pub open spec fn stated_error(parsed: Result<json::Json, Seq<char>>) -> Option<Seq<char>> {
    match parsed {
        Ok(value) => match json::json_text_member(value, "error"@) {
            Some(e) => if text::trimmed(e).len() > 0 {
                Some(text::trimmed(e))
            } else {
                None
            },
            None => None,
        },
        Err(_) => None,
    }
}

/// The message that an error body carries: for status 413 a fixed one; else the
/// error that its JSON states; else its text; else the text for the status.
pub open spec fn message_of_body(
    status: u16,
    parsed: Result<json::Json, Seq<char>>,
    body_text: Seq<char>,
    phrase: Option<Seq<char>>,
) -> Seq<char> {
    if status == 413 {
        "request body too large"@
    } else {
        match stated_error(parsed) {
            Some(e) => e,
            None => if text::trimmed(body_text).len() > 0 {
                text::trimmed(body_text)
            } else {
                status_text(phrase)
            },
        }
    }
}

/// The message that an error body carries, given what its bytes are as JSON and
/// as text, and the phrase for the status.
pub fn error_message(
    status: u16,
    parsed: &Result<JsonValue, String>,
    body_text: &str,
    phrase: Option<String>,
) -> (r: String)
    ensures
        r@ == message_of_body(
            status,
            match *parsed {
                Ok(value) => Ok(value@),
                Err(e) => Err(e@),
            },
            body_text@,
            text::opt_text(phrase),
        ),
{
    if status == 413 {
        return "request body too large".to_owned();
    }
    if let Ok(value) = parsed {
        if let Some(error) = value.text_member("error") {
            let error = text::trim(error);
            if !error.as_str().is_empty() {
                return error;
            }
        }
    }
    let own = text::trim(body_text);
    if !own.as_str().is_empty() {
        return own;
    }
    phrase_text(phrase)
}

/// The message of an error response with this body.
pub open spec fn body_message(status: u16, body: Seq<u8>) -> Seq<char> {
    message_of_body(
        status,
        json::json_parsed(body),
        text::lossy_text(body),
        status_phrase(status),
    )
}

/// The message of an error response with this body.
pub fn error_message_from_body(status: u16, bytes: &[u8]) -> (r: String)
    ensures
        r@ == body_message(status, bytes@),
{
    let parsed = json::parse_json(bytes);
    let body_text = text::text_from_utf8_lossy(bytes);
    error_message(status, &parsed, body_text.as_str(), canonical_reason(status))
}

/// What becomes of a response.
#[derive(Debug)]
pub enum EnvelopeOutcome {
    /// It goes out as it is.
    Keep,
    /// This reply takes its place, with these headers.
    Replace { reply: ErrorReply, headers: Vec<Header> },
}

/// The header lines that go along when the body is replaced: all but those that
/// describe the body, each name with its last value.
pub open spec fn carried_headers(lines: Seq<(Seq<char>, Seq<u8>)>) -> Map<Seq<char>, Seq<u8>> {
    named::last_values(lines.filter(|line: (Seq<char>, Seq<u8>)| !describes_body(line.0)))
}

/// The header describes the body.
pub open spec fn describes_body(name: Seq<char>) -> bool {
    name == "content-type"@ || name == "content-length"@
}

fn carry_headers(headers: &Vec<Header>) -> (r: Vec<Header>)
    ensures
        named::names_once(http::header_lines(r@)),
        named::last_values(http::header_lines(r@)) == carried_headers(http::header_lines(headers@)),
{
    let mut out: Vec<Header> = Vec::new();
    let ghost lines = http::header_lines(headers@);
    let ghost carried = |line: (Seq<char>, Seq<u8>)| !describes_body(line.0);
    let mut i: usize = 0;
    proof {
        lists::lemma_filter_start(lines, carried);
    }
    while i < headers.len()
        invariant
            i <= headers.len(),
            lines == http::header_lines(headers@),
            carried == (|line: (Seq<char>, Seq<u8>)| !describes_body(line.0)),
            named::names_once(http::header_lines(out@)),
            named::last_values(http::header_lines(out@)) == named::last_values(
                lines.take(i as int).filter(carried),
            ),
        decreases headers.len() - i,
    {
        let ghost shown = lines.take(i as int).filter(carried);
        proof {
            lists::lemma_filter_step(lines, carried, i as int);
            assert(shown.push(lines[i as int]).drop_last() =~= shown);
        }
        let name = headers[i].name.as_str();
        if !text::same_text(name, "content-type") && !text::same_text(name, "content-length") {
            let line = Header { name: name.to_owned(), value: headers[i].value.clone() };
            named::put(&mut out, line);
        }
        i += 1;
    }
    assert(lines.take(lines.len() as int) =~= lines);
    out
}

/// Responses with a client or server error status have their body normalized.
pub open spec fn is_error_status(status: u16) -> bool {
    400 <= status < 600
}

/// What becomes of a response with this status and these headers, given its body
/// (none where it could not be read within the limit). Only an error status is
/// touched. A body that is an envelope already is kept. Any other is replaced:
/// by one with the message it carries and the other headers, or, where it could
/// not be read, by one with the text for the status and no headers.
pub fn error_envelope_middleware(status: u16, body: Option<&[u8]>, headers: &Vec<Header>) -> (r:
    EnvelopeOutcome)
    ensures
        match r {
            EnvelopeOutcome::Keep => !is_error_status(status) || (body matches Some(bytes) && (
            json::json_parsed(bytes@) matches Ok(value) && is_envelope(value))),
            EnvelopeOutcome::Replace { reply, headers: carried } => is_error_status(status)
                && reply.status == status && reply.shape == ReplyShape::Envelope && match body {
                None => reply.error@ == status_text(status_phrase(status)) && carried@.len() == 0,
                Some(bytes) => {
                    &&& !(json::json_parsed(bytes@) matches Ok(value) && is_envelope(value))
                    &&& reply.error@ == body_message(status, bytes@)
                    &&& named::names_once(http::header_lines(carried@))
                    &&& named::last_values(http::header_lines(carried@)) == carried_headers(
                        http::header_lines(headers@),
                    )
                },
            },
        },
{
    if !(400 <= status && status < 600) {
        return EnvelopeOutcome::Keep;
    }
    let bytes = match body {
        Some(bytes) => bytes,
        None => {
            let error = phrase_text(canonical_reason(status));
            return EnvelopeOutcome::Replace {
                reply: ErrorReply { status, shape: ReplyShape::Envelope, error },
                headers: Vec::new(),
            };
        },
    };
    if is_error_envelope(bytes) {
        return EnvelopeOutcome::Keep;
    }
    let error = error_message_from_body(status, bytes);
    EnvelopeOutcome::Replace {
        reply: ErrorReply { status, shape: ReplyShape::Envelope, error },
        headers: carry_headers(headers),
    }
}

/// Paths that are always publicly accessible, regardless of auth configuration.
///
/// `/webhooks/` is not among them: webhook endpoints enforce their own
/// bearer-token or signature checks.
pub const PUBLIC_PATHS: [&'static str; 6] = [
    "/health",
    "/api/v1/health",
    "/node-types",
    "/api/v1/node-types",
    "/credential-types",
    "/api/v1/credential-types",
];

/// The path is accessible without a token.
pub open spec fn is_public_path(path: Seq<char>) -> bool {
    ||| path == "/health"@
    ||| path == "/api/v1/health"@
    ||| path == "/node-types"@
    ||| path == "/api/v1/node-types"@
    ||| path == "/credential-types"@
    ||| path == "/api/v1/credential-types"@
}

fn public_path(path: &str) -> (r: bool)
    ensures
        r == is_public_path(path@),
{
    let mut i: usize = 0;
    while i < PUBLIC_PATHS.len()
        invariant
            i <= 6,
            forall|j: int| 0 <= j < i ==> (#[trigger] PUBLIC_PATHS@[j])@ != path@,
        decreases 6 - i,
    {
        if text::same_text(path, PUBLIC_PATHS[i]) {
            assert(PUBLIC_PATHS@[i as int]@ == path@);
            return true;
        }
        i += 1;
    }
    assert(PUBLIC_PATHS@[0]@ != path@);
    assert(PUBLIC_PATHS@[1]@ != path@);
    assert(PUBLIC_PATHS@[2]@ != path@);
    assert(PUBLIC_PATHS@[3]@ != path@);
    assert(PUBLIC_PATHS@[4]@ != path@);
    assert(PUBLIC_PATHS@[5]@ != path@);
    false
}

/// A text that may be a user id: 1 to 128 characters out of ASCII letters,
/// digits, `-`, `_` and `.`.
pub open spec fn is_user_id(s: Seq<char>) -> bool {
    &&& 0 < s.len() <= 128
    &&& forall|i: int| 0 <= i < s.len() ==> is_user_id_char(#[trigger] s[i])
}

/// A character of a user id.
pub open spec fn is_user_id_char(c: char) -> bool {
    text::is_ascii_alphanumeric(c) || c == '-' || c == '_' || c == '.'
}

/// The identity of a request: that of the `X-User-Id` header where that is
/// trusted and a user id, else `"anonymous"`.
pub open spec fn user_identity(x_user_id: Option<Seq<char>>, trust_x_user_id: bool) -> Seq<char> {
    match x_user_id {
        Some(id) => if trust_x_user_id && is_user_id(id) {
            id
        } else {
            "anonymous"@
        },
        None => "anonymous"@,
    }
}

fn valid_user_id(id: &str) -> (r: bool)
    ensures
        r == is_user_id(id@),
{
    let chars = text::chars_of(id);
    if chars.len() == 0 || chars.len() > 128 {
        return false;
    }
    let mut i: usize = 0;
    while i < chars.len()
        invariant
            i <= chars.len(),
            chars@ == id@,
            forall|j: int| 0 <= j < i ==> is_user_id_char(#[trigger] id@[j]),
        decreases chars.len() - i,
    {
        let c = chars[i];
        if !(text::ascii_alphanumeric(c) || c == '-' || c == '_' || c == '.') {
            assert(!is_user_id_char(id@[i as int]));
            return false;
        }
        i += 1;
    }
    true
}

/// The identity of a request with this `X-User-Id` header.
pub fn insert_user_identity(x_user_id: Option<&[u8]>, trust_x_user_id: bool) -> (r: AuthUser)
    ensures
        r.user_id@ == user_identity(http::opt_header_text(x_user_id), trust_x_user_id),
{
    if trust_x_user_id {
        if let Some(id) = http::opt_header_str(x_user_id) {
            if valid_user_id(id.as_str()) {
                return AuthUser { user_id: id };
            }
        }
    }
    AuthUser { user_id: "anonymous".to_owned() }
}

/// The `Authorization` header carries the token.
pub open spec fn carries_token(authorization: Option<Seq<char>>, expected: Seq<char>) -> bool {
    authorization matches Some(line) && line == "Bearer "@ + expected
}

/// What becomes of a request.
#[derive(Debug)]
pub enum AuthDecision {
    /// It goes on under this identity.
    Proceed(AuthUser),
    /// It goes on with no identity attached.
    ProceedUnidentified,
    /// It is answered with this.
    Reject(ErrorReply),
}

/// The answer to a request without a valid token.
pub fn unauthorized_response() -> (r: ErrorReply)
    ensures
        r.status == 401,
        r.shape == ReplyShape::Envelope,
        r.error@ == "unauthorized"@,
{
    ErrorReply { status: 401, shape: ReplyShape::Envelope, error: "unauthorized".to_owned() }
}

/// Bearer token authentication.
///
/// An identity is only attached after the bearer token check passes, or when no
/// token is configured. This prevents unauthenticated requests from carrying a
/// spoofed `X-User-Id` identity. A request on a public path goes on in any case.
pub fn auth_middleware(
    path: &str,
    authorization: Option<&[u8]>,
    x_user_id: Option<&[u8]>,
    token: Option<&str>,
    trust_x_user_id: bool,
) -> (r: AuthDecision)
    ensures
        match r {
            AuthDecision::Proceed(user) => {
                &&& match token {
                    None => true,
                    Some(expected) => carries_token(
                        http::opt_header_text(authorization),
                        expected@,
                    ),
                }
                &&& user.user_id@ == user_identity(
                    http::opt_header_text(x_user_id),
                    trust_x_user_id,
                )
            },
            AuthDecision::ProceedUnidentified => {
                &&& token matches Some(expected) && !carries_token(
                    http::opt_header_text(authorization),
                    expected@,
                )
                &&& is_public_path(path@)
            },
            AuthDecision::Reject(reply) => {
                &&& token matches Some(expected) && !carries_token(
                    http::opt_header_text(authorization),
                    expected@,
                )
                &&& !is_public_path(path@)
                &&& reply.status == 401
                &&& reply.shape == ReplyShape::Envelope
                &&& reply.error@ == "unauthorized"@
            },
        },
{
    let expected = match token {
        Some(expected) => expected,
        None => return AuthDecision::Proceed(insert_user_identity(x_user_id, trust_x_user_id)),
    };
    proof {
        text::lemma_prefix_cut_off("Bearer "@, expected@);
    }
    if let Some(line) = http::opt_header_str(authorization) {
        if let Some(provided) = text::strip_prefix(line.as_str(), "Bearer ") {
            assert(line@ =~= "Bearer "@ + provided@);
            if crypto::same_secret(provided.as_str(), expected) {
                return AuthDecision::Proceed(insert_user_identity(x_user_id, trust_x_user_id));
            }
        }
    }
    if public_path(path) {
        return AuthDecision::ProceedUnidentified;
    }
    AuthDecision::Reject(unauthorized_response())
}

/// What a permission check finds of the access policy.
#[derive(Debug, Clone, Copy, PartialEq, Eq, Structural)]
pub enum PolicyRead {
    /// No policy is configured.
    Disabled,
    /// The policy could not be read.
    Unreadable,
    /// The policy binds nobody to any role.
    Empty,
    /// The policy has bindings, and by them grants the permission or not.
    Bound { granted: bool },
}

/// The answer to a request without the permission.
pub fn forbidden_response() -> (r: ErrorReply)
    ensures
        r.status == 403,
        r.shape == ReplyShape::Envelope,
        r.error@ == "Forbidden: insufficient permissions"@,
{
    ErrorReply {
        status: 403,
        shape: ReplyShape::Envelope,
        error: "Forbidden: insufficient permissions".to_owned(),
    }
}

/// The user has the permission: there is no policy, or its bindings grant it, or
/// it has none yet and the user is the bootstrap admin.
pub open spec fn is_permitted(
    policy: PolicyRead,
    user_id: Seq<char>,
    bootstrap_admin: Option<Seq<char>>,
) -> bool {
    match policy {
        PolicyRead::Disabled => true,
        PolicyRead::Unreadable => false,
        PolicyRead::Empty => bootstrap_admin == Some(user_id),
        PolicyRead::Bound { granted } => granted,
    }
}

/// Whether the user has the permission; an error where the policy cannot be read.
pub fn has_permission(policy: &PolicyRead, user_id: &str, bootstrap_admin: Option<&str>) -> (r:
    Result<bool, ErrorReply>)
    ensures
        match r {
            Ok(permitted) => *policy != PolicyRead::Unreadable && permitted == is_permitted(
                *policy,
                user_id@,
                text::opt_str(bootstrap_admin),
            ),
            Err(reply) => {
                &&& *policy == PolicyRead::Unreadable
                &&& reply.status == 500
                &&& reply.shape == ReplyShape::Envelope
                &&& reply.error@ == "Internal server error"@
            },
        },
{
    match policy {
        PolicyRead::Disabled => Ok(true),
        PolicyRead::Unreadable => Err(
            ErrorReply {
                status: 500,
                shape: ReplyShape::Envelope,
                error: "Internal server error".to_owned(),
            },
        ),
        PolicyRead::Empty => match bootstrap_admin {
            Some(admin) => Ok(text::same_text(user_id, admin)),
            None => Ok(false),
        },
        PolicyRead::Bound { granted } => Ok(*granted),
    }
}

/// Lets the user pass, or gives the answer to the request.
pub fn check_permission(policy: &PolicyRead, user_id: &str, bootstrap_admin: Option<&str>) -> (r:
    Result<(), ErrorReply>)
    ensures
        r is Ok <==> is_permitted(*policy, user_id@, text::opt_str(bootstrap_admin)),
        r matches Err(reply) ==> reply.shape == ReplyShape::Envelope && if *policy
            == PolicyRead::Unreadable {
            reply.status == 500 && reply.error@ == "Internal server error"@
        } else {
            reply.status == 403 && reply.error@ == "Forbidden: insufficient permissions"@
        },
{
    match has_permission(policy, user_id, bootstrap_admin) {
        Ok(true) => Ok(()),
        Ok(false) => Err(forbidden_response()),
        Err(reply) => Err(reply),
    }
}

/// A reply in the envelope's shape is an envelope: normalizing it again keeps it.
pub proof fn law_envelope_replies_are_kept(reply: http::ErrorReplyModel)
    requires
        reply.shape == ReplyShape::Envelope,
    ensures
        is_envelope(http::reply_json(reply)),
{
    let data = ("data"@, json::Json::Null);
    let error = ("error"@, json::Json::Text(reply.error));
    let members = seq![data, error];
    assert(members.drop_first() =~= seq![error]);
    reveal_with_fuel(json::member, 3);
}

/// Where an error body says anything, the message is not empty and carries no
/// whitespace at its ends.
pub proof fn law_error_message_is_trimmed(
    status: u16,
    parsed: Result<json::Json, Seq<char>>,
    body_text: Seq<char>,
    phrase: Option<Seq<char>>,
)
    requires
        status != 413,
        stated_error(parsed) is Some || text::trimmed(body_text).len() > 0,
    ensures
        ({
            let message = message_of_body(status, parsed, body_text, phrase);
            message.len() > 0 && text::trimmed(message) == message
        }),
{
    text::lemma_trimmed_twice(body_text);
    if let Ok(value) = parsed {
        if let Some(e) = json::json_text_member(value, "error"@) {
            text::lemma_trimmed_twice(e);
        }
    }
}

/// The identity of a request is always a well-formed user id, and `"anonymous"`
/// where the header is not trusted.
pub proof fn law_identity_is_well_formed(x_user_id: Option<Seq<char>>, trust_x_user_id: bool)
    ensures
        is_user_id(user_identity(x_user_id, trust_x_user_id)),
        !trust_x_user_id ==> user_identity(x_user_id, trust_x_user_id) == "anonymous"@,
{
    reveal_strlit("anonymous");
    let anonymous = "anonymous"@;
    assert forall|i: int| 0 <= i < anonymous.len() implies is_user_id_char(
        #[trigger] anonymous[i],
    ) by {}
}

/// No path under `/webhooks/` is public.
pub proof fn law_webhooks_are_not_public(path: Seq<char>)
    requires
        text::has_prefix(path, "/webhooks/"@),
    ensures
        !is_public_path(path),
{
    reveal_strlit("/webhooks/");
    reveal_strlit("/health");
    reveal_strlit("/api/v1/health");
    reveal_strlit("/node-types");
    reveal_strlit("/api/v1/node-types");
    reveal_strlit("/credential-types");
    reveal_strlit("/api/v1/credential-types");
    assert(path.take(10)[1] == 'w');
    assert(path[1] == 'w');
}

/// The error that a body states is the text of its `error` member, without the
/// whitespace around it; a blank one, or none, states nothing.
pub proof fn law_stated_error_is_the_error_member(parsed: Result<json::Json, Seq<char>>)
    ensures
        parsed is Err ==> stated_error(parsed) is None,
        parsed matches Ok(v) ==> (json::json_get(v, "error"@) is None ==> stated_error(
            parsed,
        ) is None),
        parsed matches Ok(v) ==> (json::json_get(v, "error"@) matches Some(m) ==> (m matches
            json::Json::Text(s) ==> (text::trimmed(s).len() > 0 ==> stated_error(parsed) == Some(
            text::trimmed(s),
        )))),
        parsed matches Ok(v) ==> (json::json_get(v, "error"@) matches Some(m) ==> (m matches
            json::Json::Text(s) ==> (text::trimmed(s).len() == 0 ==> stated_error(
            parsed,
        ) is None))),
        parsed matches Ok(v) ==> (json::json_get(v, "error"@) matches Some(m) ==> (!(m is Text)
            ==> stated_error(parsed) is None)),
{
}

/// The message of an error is what its body states, else the body's text, else the
/// phrase for the status in small letters; a body that is too large has its own.
pub proof fn law_error_message_is_the_first_that_is_said(
    status: u16,
    parsed: Result<json::Json, Seq<char>>,
    body_text: Seq<char>,
    phrase: Option<Seq<char>>,
)
    ensures
        message_of_body(413, parsed, body_text, phrase) == "request body too large"@,
        status != 413 && stated_error(parsed) is Some ==> message_of_body(
            status,
            parsed,
            body_text,
            phrase,
        ) == stated_error(parsed)->0,
        status != 413 && stated_error(parsed) is None && text::trimmed(body_text).len() > 0
            ==> message_of_body(status, parsed, body_text, phrase) == text::trimmed(body_text),
        status != 413 && stated_error(parsed) is None && text::trimmed(body_text).len() == 0
            && phrase is Some ==> message_of_body(status, parsed, body_text, phrase)
            == text::ascii_lowercase(phrase->0),
        status != 413 && stated_error(parsed) is None && text::trimmed(body_text).len() == 0
            && phrase is None ==> message_of_body(status, parsed, body_text, phrase)
            == "request failed"@,
        phrase is Some ==> status_text(phrase) == text::ascii_lowercase(phrase->0),
        phrase is None ==> status_text(phrase) == "request failed"@,
{
}

/// A body's message is that of its JSON, its text and the phrase for its status.
pub proof fn law_body_message_is_of_the_body(status: u16, body: Seq<u8>)
    ensures
        body_message(status, body) == message_of_body(
            status,
            json::json_parsed(body),
            text::lossy_text(body),
            status_phrase(status),
        ),
{
}

/// An envelope is an object that holds something under `data` and under `error`.
pub proof fn law_envelopes_hold_data_and_error(value: json::Json)
    ensures
        is_envelope(value) <==> value is Object && json::has_key(value->Object_0, "data"@)
            && json::has_key(value->Object_0, "error"@),
{
    if let json::Json::Object(members) = value {
        json::lemma_member_stands(members, "data"@);
        json::lemma_member_stands(members, "error"@);
    }
}

/// The statuses of errors are those from 400 to 599.
pub proof fn law_error_statuses(status: u16)
    ensures
        is_error_status(status) <==> 400 <= status <= 599,
{
}

/// Where a body is replaced, each header goes along with its last value, but for
/// the type and the length of the body.
pub proof fn law_headers_go_along(lines: Seq<(Seq<char>, Seq<u8>)>, i: int)
    requires
        0 <= i < lines.len(),
        forall|j: int| i < j < lines.len() ==> (#[trigger] lines[j]).0 != lines[i].0,
    ensures
        lines[i].0 != "content-type"@ && lines[i].0 != "content-length"@ ==> carried_headers(
            lines,
        ).contains_key(lines[i].0) && carried_headers(lines)[lines[i].0] == lines[i].1,
    decreases lines.len(),
{
    let carried = |line: (Seq<char>, Seq<u8>)| !describes_body(line.0);
    reveal(Seq::filter);
    let rest = lines.drop_last();
    let kept = rest.filter(carried);
    assert(lines.filter(carried) == if carried(lines.last()) {
        kept.push(lines.last())
    } else {
        kept
    });
    assert(kept.push(lines.last()).drop_last() =~= kept);
    if i < rest.len() {
        assert forall|j: int| i < j < rest.len() implies (#[trigger] rest[j]).0 != rest[i].0 by {
            assert(lines[j].0 != lines[i].0);
        }
        law_headers_go_along(rest, i);
        assert(lines[lines.len() - 1].0 != lines[i].0);
    }
}

/// Neither the type nor the length of a body goes along when it is replaced, nor
/// does a header that the response did not have.
pub proof fn law_body_headers_stay_behind(lines: Seq<(Seq<char>, Seq<u8>)>, name: Seq<char>)
    ensures
        !carried_headers(lines).contains_key("content-type"@),
        !carried_headers(lines).contains_key("content-length"@),
        (forall|j: int| 0 <= j < lines.len() ==> (#[trigger] lines[j]).0 != name)
            ==> !carried_headers(lines).contains_key(name),
    decreases lines.len(),
{
    let carried = |line: (Seq<char>, Seq<u8>)| !describes_body(line.0);
    reveal(Seq::filter);
    if lines.len() > 0 {
        let rest = lines.drop_last();
        law_body_headers_stay_behind(rest, name);
        let kept = rest.filter(carried);
        assert(kept.push(lines.last()).drop_last() =~= kept);
        if forall|j: int| 0 <= j < lines.len() ==> (#[trigger] lines[j]).0 != name {
            assert forall|j: int| 0 <= j < rest.len() implies (#[trigger] rest[j]).0 != name by {
                assert(lines[j].0 != name);
            }
            assert(lines[lines.len() - 1].0 != name);
        }
    }
}

/// The public paths are those of the health check, the node types and the credential
/// types, with and without the prefix of the API.
pub proof fn law_public_paths_are_these(path: Seq<char>)
    ensures
        is_public_path("/health"@),
        is_public_path("/api/v1/health"@),
        is_public_path("/node-types"@),
        is_public_path("/api/v1/node-types"@),
        is_public_path("/credential-types"@),
        is_public_path("/api/v1/credential-types"@),
        is_public_path(path) ==> path == "/health"@ || path == "/api/v1/health"@ || path
            == "/node-types"@ || path == "/api/v1/node-types"@ || path == "/credential-types"@
            || path == "/api/v1/credential-types"@,
{
}

/// A request has the identity of its header exactly where that is trusted and has
/// from 1 to 128 letters, digits, hyphens, underscores and dots; else it is anonymous.
pub proof fn law_identity_is_the_trusted_header(
    x_user_id: Option<Seq<char>>,
    trust_x_user_id: bool,
)
    ensures
        trust_x_user_id && x_user_id is Some && 1 <= x_user_id->0.len() <= 128 && (forall|i: int|
            0 <= i < x_user_id->0.len() ==> ('a' <= (#[trigger] x_user_id->0[i]) <= 'z') || ('A'
                <= x_user_id->0[i] <= 'Z') || ('0' <= x_user_id->0[i] <= '9') || x_user_id->0[i]
                == '-' || x_user_id->0[i] == '_' || x_user_id->0[i] == '.') ==> user_identity(
            x_user_id,
            trust_x_user_id,
        ) == x_user_id->0,
        !trust_x_user_id || x_user_id is None || x_user_id->0.len() == 0 || x_user_id->0.len() > 128
            ==> user_identity(x_user_id, trust_x_user_id) == "anonymous"@,
        x_user_id is Some && (exists|i: int|
            0 <= i < x_user_id->0.len() && !(('a' <= (#[trigger] x_user_id->0[i]) <= 'z') || ('A'
                <= x_user_id->0[i] <= 'Z') || ('0' <= x_user_id->0[i] <= '9') || x_user_id->0[i]
                == '-' || x_user_id->0[i] == '_' || x_user_id->0[i] == '.')) ==> user_identity(
            x_user_id,
            trust_x_user_id,
        ) == "anonymous"@,
{
    if let Some(id) = x_user_id {
        if is_user_id(id) {
            assert forall|i: int| 0 <= i < id.len() implies ('a' <= (#[trigger] id[i]) <= 'z') || (
            'A' <= id[i] <= 'Z') || ('0' <= id[i] <= '9') || id[i] == '-' || id[i] == '_' || id[i]
                == '.' by {
                assert(is_user_id_char(id[i]));
            }
        } else if 1 <= id.len() <= 128 {
            let i = choose|i: int| 0 <= i < id.len() && !is_user_id_char(#[trigger] id[i]);
            assert(!is_user_id_char(id[i]));
        }
    }
}

/// The header that carries a token is `Bearer`, a space, and the whole token.
pub proof fn law_token_is_carried_whole(authorization: Option<Seq<char>>, expected: Seq<char>)
    ensures
        carries_token(authorization, expected) <==> authorization == Some("Bearer "@ + expected),
{
}

/// Without a policy every user is permitted; with one that has no bindings the
/// bootstrap admin alone; else those whom the bindings grant it.
pub proof fn law_permissions_follow_the_policy(
    user: Seq<char>,
    admin: Option<Seq<char>>,
    granted: bool,
)
    ensures
        is_permitted(PolicyRead::Disabled, user, admin),
        !is_permitted(PolicyRead::Unreadable, user, admin),
        is_permitted(PolicyRead::Empty, user, admin) <==> admin is Some && admin->0 == user,
        is_permitted(PolicyRead::Bound { granted }, user, admin) <==> granted,
{
}

} // verus!
