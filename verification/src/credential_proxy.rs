//! Credential proxy: HTTP requests on behalf of plugins, with credentials that
//! the plugin never sees.
//!
//! A plugin that needs to call an authenticated API sends a [`CapabilityRequest`]
//! in place of receiving raw credentials. The proxy injects the appropriate
//! authentication into the outgoing request, and returns a sanitized
//! [`CapabilityResponse`].

use crate::error::OrbflowError;
use crate::http;
use crate::http::Header;
use crate::json;
use crate::json::{JsonMember, JsonValue};
use crate::named;
use crate::named::Named;
use crate::ssrf;
use crate::ssrf::{ResolveError, ResolvedAddress};
use crate::text;
use crate::transport;
use crate::weburl;
use crate::weburl::{UrlHost, UrlParts};
use vstd::prelude::*;
use vstd::utf8::*;

verus! {

/// A request that a plugin asks the proxy to make.
#[derive(Debug)]
pub struct CapabilityRequest {
    pub credential_id: String,
    pub method: String,
    pub url: String,
    pub headers: Vec<(String, String)>,
    pub body: Option<JsonValue>,
}

/// What the proxy answers a plugin.
#[derive(Debug)]
pub struct CapabilityResponse {
    pub status_code: u16,
    pub headers: Vec<(String, String)>,
    pub body: Option<JsonValue>,
    pub error: Option<String>,
}

/// A resolver that keeps only the public addresses of a host name.
#[derive(Debug, Clone, Copy)]
pub struct ProxySsrfSafeResolver;

impl ProxySsrfSafeResolver {
    /// The positions of the addresses that may be connected to; an error where
    /// there is none.
    pub fn resolve(&self, addresses: &Vec<ResolvedAddress>) -> (r: Result<
        Vec<usize>,
        ResolveError,
    >)
        ensures
            match r {
                Ok(kept) => kept@.len() > 0 && kept@ == ssrf::public_positions(addresses@),
                Err(e) => {
                    &&& ssrf::public_positions(addresses@).len() == 0
                    &&& e.kind == ssrf::ResolveErrorKind::PermissionDenied
                    &&& e.message@
                        == "all resolved addresses are private/internal (SSRF protection)"@
                },
            },
    {
        ssrf::keep_public(addresses)
    }
}

/// Where a proxy URL leads, as far as the URL itself tells.
#[derive(Debug)]
pub enum ProxyTarget {
    /// To the address that it names, which is admitted.
    Admitted { href: String },
    /// To what this host resolves to.
    Lookup { host: String, port: u16, href: String },
}

/// The model of a target.
#[allow(inconsistent_fields)]
pub enum TargetModel {
    Admitted { href: Seq<char> },
    Lookup { host: Seq<char>, port: u16, href: Seq<char> },
}

impl View for ProxyTarget {
    type V = TargetModel;

    open spec fn view(&self) -> TargetModel {
        match *self {
            ProxyTarget::Admitted { href } => TargetModel::Admitted { href: href@ },
            ProxyTarget::Lookup { host, port, href } => TargetModel::Lookup {
                host: host@,
                port,
                href: href@,
            },
        }
    }
}

/// Where a proxy URL leads, or why it is refused. `private_reason` is why the
/// IPv4 address that it names is private, where it names one that is.
pub open spec fn proxy_target(
    parsed: Result<weburl::UrlModel, Seq<char>>,
    blocked_hostnames: Seq<Seq<char>>,
    private_reason: Option<Seq<char>>,
) -> Result<TargetModel, Seq<char>> {
    match parsed {
        Err(e) => Err("invalid proxy URL: "@ + e),
        Ok(parts) => if parts.scheme != "https"@ {
            Err("credential proxy only allows HTTPS URLs"@)
        } else {
            match transport::stated_host(parts) {
                None => Err("proxy URL has no host"@),
                Some(host) => proxy_host_target(parts, host, blocked_hostnames, private_reason),
            }
        },
    }
}

/// Where a proxy URL with a host leads, or why it is refused.
pub open spec fn proxy_host_target(
    parts: weburl::UrlModel,
    host: Seq<char>,
    blocked_hostnames: Seq<Seq<char>>,
    private_reason: Option<Seq<char>>,
) -> Result<TargetModel, Seq<char>> {
    let lower = text::ascii_lowercase(host);
    if lower == "localhost"@ || blocked_hostnames.contains(lower) {
        Err("credential proxy blocked request to internal host: "@ + host)
    } else if parts.host is Ipv4 {
        match private_reason {
            Some(reason) => Err("credential proxy blocked request to "@ + reason + ": "@ + host),
            None => Ok(TargetModel::Admitted { href: parts.href }),
        }
    } else {
        match parts.port {
            None => Err("proxy URL has no port"@),
            Some(port) => Ok(TargetModel::Lookup { host, port, href: parts.href }),
        }
    }
}

/// `r` is the target, or refuses the configuration for the reason.
pub open spec fn is_target(
    r: Result<ProxyTarget, OrbflowError>,
    expected: Result<TargetModel, Seq<char>>,
) -> bool {
    match expected {
        Ok(target) => r matches Ok(t) && t@ == target,
        Err(reason) => r matches Err(OrbflowError::InvalidNodeConfig(e)) && e@ == reason,
    }
}

/// Where a proxy URL that was taken apart leads.
pub fn check_proxy_url(
    parsed: Result<UrlParts, String>,
    blocked_hostnames: &Vec<String>,
    private_reason: Option<&str>,
) -> (r: Result<ProxyTarget, OrbflowError>)
    ensures
        is_target(
            r,
            proxy_target(
                weburl::parts_model(parsed),
                text::texts(blocked_hostnames@),
                text::opt_str(private_reason),
            ),
        ),
{
    let parts = match parsed {
        Ok(parts) => parts,
        Err(e) => {
            let mut message = "invalid proxy URL: ".to_owned();
            message.append(e.as_str());
            return Err(OrbflowError::InvalidNodeConfig(message));
        },
    };
    if !text::same_text(parts.scheme.as_str(), "https") {
        return Err(
            OrbflowError::InvalidNodeConfig("credential proxy only allows HTTPS URLs".to_owned()),
        );
    }
    let host = match parts.host_text {
        Some(host) => host,
        None => String::new(),
    };
    if host.as_str().is_empty() {
        return Err(OrbflowError::InvalidNodeConfig("proxy URL has no host".to_owned()));
    }
    let lower = text::to_ascii_lowercase(host.as_str());
    if text::same_text(lower.as_str(), "localhost") || text::contains_among(
        blocked_hostnames,
        lower.as_str(),
    ) {
        let mut message = "credential proxy blocked request to internal host: ".to_owned();
        message.append(host.as_str());
        return Err(OrbflowError::InvalidNodeConfig(message));
    }
    if let UrlHost::Ipv4(_) = parts.host {
        return match private_reason {
            Some(reason) => {
                let mut message = "credential proxy blocked request to ".to_owned();
                message.append(reason);
                message.append(": ");
                message.append(host.as_str());
                Err(OrbflowError::InvalidNodeConfig(message))
            },
            None => Ok(ProxyTarget::Admitted { href: parts.href }),
        };
    }
    match parts.port {
        Some(port) => Ok(ProxyTarget::Lookup { host, port, href: parts.href }),
        None => Err(OrbflowError::InvalidNodeConfig("proxy URL has no port".to_owned())),
    }
}

/// Validates a proxy URL: enforces HTTPS, parses the host exactly, and blocks
/// internal hosts, known cloud metadata endpoints and private addresses. A host
/// that is not an IPv4 address is left to be looked up, see
/// [`check_proxy_lookup`].
pub fn validate_proxy_url(
    url: &str,
    blocked_hostnames: &Vec<String>,
    private_reason: Option<&str>,
) -> (r: Result<ProxyTarget, OrbflowError>)
    ensures
        is_target(
            r,
            proxy_target(
                weburl::url_parsed(url@),
                text::texts(blocked_hostnames@),
                text::opt_str(private_reason),
            ),
        ),
{
    check_proxy_url(weburl::parse_url(url), blocked_hostnames, private_reason)
}

/// Validates what a proxy URL's host resolved to; none where it could not be
/// resolved. One private address is enough to refuse it, and so is no address.
pub fn check_proxy_lookup(host: &str, resolved: Option<&Vec<ResolvedAddress>>) -> (r: Result<
    (),
    OrbflowError,
>)
    ensures
        ({
            let found = match resolved {
                Some(addresses) => Some(*addresses),
                None => None,
            };
            if lookup_admitted(found) {
                r is Ok
            } else {
                r matches Err(OrbflowError::InvalidNodeConfig(e)) && lookup_refused(
                    host@,
                    found,
                    e@,
                )
            }
        }),
{
    let mut message = "credential proxy URL hostname '".to_owned();
    message.append(host);
    let addresses = match resolved {
        Some(addresses) => addresses,
        None => {
            message.append("' could not be resolved");
            return Err(OrbflowError::InvalidNodeConfig(message));
        },
    };
    if let Some(i) = ssrf::find_private(addresses) {
        assert(ssrf::first_private(addresses@, i as int));
        message.append("' resolves to ");
        if let Some(reason) = &addresses[i].private_reason {
            message.append(reason.as_str());
        }
        message.append(" (");
        message.append(addresses[i].ip.as_str());
        message.append(")");
        return Err(OrbflowError::InvalidNodeConfig(message));
    }
    if addresses.len() == 0 {
        message.append("' resolved no addresses");
        return Err(OrbflowError::InvalidNodeConfig(message));
    }
    Ok(())
}

/// A character of an HTTP method.
pub open spec fn is_method_char(c: char) -> bool {
    text::is_ascii_alphanumeric(c) || "!#$%&'*+-.^_`|~"@.contains(c)
}

/// A text that is an HTTP method: one or more letters, digits or method signs.
pub open spec fn is_method(s: Seq<char>) -> bool {
    s.len() > 0 && forall|i: int| 0 <= i < s.len() ==> is_method_char(#[trigger] s[i])
}

/// `http::Method::from_bytes` on the bytes of a text: whether the text is an HTTP
/// method, or the error's text, which is one and the same for every other text.
#[verifier::external_body]
fn parse_method(method: &str) -> (r: Result<(), String>)
    ensures
        r is Ok <==> is_method(method@),
        r matches Err(e) ==> e@ == "invalid HTTP method"@,
{
    reqwest::Method::from_bytes(method.as_bytes()).map(|_| ()).map_err(|e| e.to_string())
}

/// The authentication that a request gets.
#[derive(Debug)]
pub enum AuthInjection {
    /// An `Authorization` header with this value.
    Bearer(String),
    /// HTTP basic authentication.
    Basic { username: String, password: String },
    Nothing,
}

/// The model of an authentication.
#[allow(inconsistent_fields)]
pub enum AuthModel {
    Bearer(Seq<char>),
    Basic { username: Seq<char>, password: Seq<char> },
    Nothing,
}

impl View for AuthInjection {
    type V = AuthModel;

    open spec fn view(&self) -> AuthModel {
        match *self {
            AuthInjection::Bearer(value) => AuthModel::Bearer(value@),
            AuthInjection::Basic { username, password } => AuthModel::Basic {
                username: username@,
                password: password@,
            },
            AuthInjection::Nothing => AuthModel::Nothing,
        }
    }
}

/// The text of a credential's field.
pub open spec fn field_text(data: Seq<(Seq<char>, json::Json)>, key: Seq<char>) -> Option<
    Seq<char>,
> {
    match json::member(data, key) {
        Some(value) => json::json_text(value),
        None => None,
    }
}

/// The authentication that a credential gives: by its API key, else by its token,
/// else by its user name and password, where a missing password is empty.
pub open spec fn injected_auth(data: Seq<(Seq<char>, json::Json)>) -> AuthModel {
    if let Some(key) = field_text(data, "api_key"@) {
        AuthModel::Bearer("Bearer "@ + key)
    } else if let Some(token) = field_text(data, "token"@) {
        AuthModel::Bearer("Bearer "@ + token)
    } else if let Some(username) = field_text(data, "username"@) {
        AuthModel::Basic {
            username,
            password: match field_text(data, "password"@) {
                Some(p) => p,
                None => Seq::empty(),
            },
        }
    } else {
        AuthModel::Nothing
    }
}

fn field_str<'a>(data: &'a Vec<JsonMember>, key: &str) -> (r: Option<&'a str>)
    ensures
        text::opt_str(r) == field_text(json::members_view(data@), key@),
{
    match json::find_member(data, key) {
        Some(value) => value.as_str(),
        None => None,
    }
}

fn bearer(secret: &str) -> (r: AuthInjection)
    ensures
        r@ == AuthModel::Bearer("Bearer "@ + secret@),
{
    let mut value = "Bearer ".to_owned();
    value.append(secret);
    AuthInjection::Bearer(value)
}

/// The authentication that a credential gives.
pub fn inject_auth(data: &Vec<JsonMember>) -> (r: AuthInjection)
    ensures
        r@ == injected_auth(json::members_view(data@)),
{
    if let Some(key) = field_str(data, "api_key") {
        return bearer(key);
    }
    if let Some(token) = field_str(data, "token") {
        return bearer(token);
    }
    if let Some(user) = field_str(data, "username") {
        let password = match field_str(data, "password") {
            Some(p) => p.to_owned(),
            None => String::new(),
        };
        return AuthInjection::Basic { username: user.to_owned(), password };
    }
    AuthInjection::Nothing
}

/// A credential, as far as the proxy reads it.
#[derive(Debug)]
pub struct ProxyCredential {
    pub name: String,
    pub data: Vec<JsonMember>,
    /// Whether the credential's policy admits the request's URL; none where it has
    /// no policy.
    pub domain_allowed: Option<bool>,
}

/// The credential may be used for the request's URL: it has no policy, or one that
/// admits the URL.
pub open spec fn admits_domain(cred: ProxyCredential) -> bool {
    cred.domain_allowed != Some(false)
}

/// How long a request may take.
pub const REQUEST_TIMEOUT_SECS: u64 = 30;

/// How far a request has come.
#[derive(Debug)]
#[allow(inconsistent_fields)]
pub enum ProxyState {
    /// The host of its URL is being looked up.
    Resolving { host: String, href: String },
    /// Its URL is valid, and its credential is being fetched.
    Fetching { href: String },
    /// It is being sent.
    Sending,
    /// It has been answered.
    Ended,
}

/// What came of the last thing that was done for a request.
#[derive(Debug)]
pub enum ProxyEvent {
    /// What the host resolved to; none where it could not be resolved.
    Resolved(Option<Vec<ResolvedAddress>>),
    /// The credential.
    Fetched(Result<ProxyCredential, OrbflowError>),
    /// The request could not be sent.
    NotSent(String),
    /// The reply to the request.
    Replied { status_code: u16, headers: Vec<Header>, body: Vec<u8> },
}

/// A request as it goes out: the headers in their order, then the authentication,
/// and the body, where there is one, as JSON.
#[derive(Debug)]
pub struct OutgoingRequest {
    pub method: String,
    pub url: String,
    pub headers: Vec<(String, String)>,
    pub auth: AuthInjection,
    pub body: Option<JsonValue>,
    /// How long it may take.
    pub timeout_secs: u64,
}

/// The JSON of a body, where there is one.
pub open spec fn body_json(body: Option<JsonValue>) -> Option<json::Json> {
    match body {
        Some(value) => Some(value@),
        None => None,
    }
}

/// The request goes out as the plugin made it, to the URL and with the
/// authentication.
pub open spec fn is_outgoing(
    out: OutgoingRequest,
    req: CapabilityRequest,
    href: Seq<char>,
    auth: AuthModel,
) -> bool {
    &&& out.method@ == req.method@
    &&& out.url@ == href
    &&& text_pairs(out.headers@) == text_pairs(req.headers@)
    &&& out.auth@ == auth
    &&& body_json(out.body) == body_json(req.body)
    &&& out.timeout_secs == REQUEST_TIMEOUT_SECS
}

fn copy_pairs(pairs: &Vec<(String, String)>) -> (r: Vec<(String, String)>)
    ensures
        text_pairs(r@) == text_pairs(pairs@),
{
    let mut out: Vec<(String, String)> = Vec::new();
    let mut i: usize = 0;
    while i < pairs.len()
        invariant
            i <= pairs.len(),
            out@.len() == i,
            forall|j: int|
                0 <= j < i ==> (#[trigger] out@[j]).0@ == pairs@[j].0@ && out@[j].1@
                    == pairs@[j].1@,
        decreases pairs.len() - i,
    {
        out.push((pairs[i].0.clone(), pairs[i].1.clone()));
        i += 1;
    }
    assert(text_pairs(out@) =~= text_pairs(pairs@));
    out
}

/// The request that goes out for a plugin's request.
pub fn outgoing_request(req: &CapabilityRequest, href: String, auth: AuthInjection) -> (r:
    OutgoingRequest)
    ensures
        is_outgoing(r, *req, href@, auth@),
{
    let body = match &req.body {
        Some(value) => Some(value.copy()),
        None => None,
    };
    OutgoingRequest {
        method: req.method.clone(),
        url: href,
        headers: copy_pairs(&req.headers),
        auth,
        body,
        timeout_secs: REQUEST_TIMEOUT_SECS,
    }
}

/// What is to be done next for a request.
#[derive(Debug)]
#[allow(inconsistent_fields)]
pub enum ProxyAction {
    /// Look the host up.
    LookUp { host: String, port: u16 },
    /// Fetch the credential, and tell whether its policy admits the URL.
    Fetch { credential_id: String, href: String },
    /// Send the request.
    Send(OutgoingRequest),
    /// Answer the plugin.
    Finish(Result<CapabilityResponse, OrbflowError>),
}

/// The event is one that the state waits for.
pub open spec fn awaits(state: ProxyState, event: ProxyEvent) -> bool {
    match state {
        ProxyState::Resolving { host, href } => event is Resolved,
        ProxyState::Fetching { href } => event is Fetched,
        ProxyState::Sending => event is NotSent || event is Replied,
        ProxyState::Ended => false,
    }
}

/// The first step of a request with this target: it is refused, or its host is
/// looked up, or its credential is fetched.
pub open spec fn begins(
    req: CapabilityRequest,
    target: Result<TargetModel, Seq<char>>,
    state: ProxyState,
    action: ProxyAction,
) -> bool {
    match target {
        Err(reason) => {
            &&& state is Ended
            &&& action matches ProxyAction::Finish(Err(OrbflowError::InvalidNodeConfig(e))) && e@
                == reason
        },
        Ok(TargetModel::Admitted { href }) => {
            &&& state matches ProxyState::Fetching { href: held } && held@ == href
            &&& action matches ProxyAction::Fetch { credential_id, href: given } && credential_id@
                == req.credential_id@ && given@ == href
        },
        Ok(TargetModel::Lookup { host, port, href }) => {
            &&& state matches ProxyState::Resolving { host: h, href: held } && h@ == host && held@
                == href
            &&& action matches ProxyAction::LookUp { host: given, port: at } && given@ == host && at
                == port
        },
    }
}

/// `e` is why the addresses that a host resolved to are refused.
pub open spec fn lookup_refused(
    host: Seq<char>,
    resolved: Option<Vec<ResolvedAddress>>,
    e: Seq<char>,
) -> bool {
    let name = "credential proxy URL hostname '"@ + host;
    match resolved {
        None => e == name + "' could not be resolved"@,
        Some(addresses) => if addresses@.len() == 0 {
            e == name + "' resolved no addresses"@
        } else {
            exists|i: int|
                {
                    &&& #[trigger] ssrf::first_private(addresses@, i)
                    &&& e == name + "' resolves to "@ + addresses@[i].private_reason->0@ + " ("@
                        + addresses@[i].ip@ + ")"@
                }
        },
    }
}

/// The addresses may be connected to: there is one, and none is private.
pub open spec fn lookup_admitted(resolved: Option<Vec<ResolvedAddress>>) -> bool {
    resolved matches Some(addresses) && addresses@.len() > 0 && ssrf::all_public(addresses@)
}

/// The step after the lookup.
pub open spec fn resolves(
    req: CapabilityRequest,
    host: Seq<char>,
    href: Seq<char>,
    resolved: Option<Vec<ResolvedAddress>>,
    state: ProxyState,
    action: ProxyAction,
) -> bool {
    if lookup_admitted(resolved) {
        &&& state matches ProxyState::Fetching { href: held } && held@ == href
        &&& action matches ProxyAction::Fetch { credential_id, href: given } && credential_id@
            == req.credential_id@ && given@ == href
    } else {
        &&& state is Ended
        &&& action matches ProxyAction::Finish(Err(OrbflowError::InvalidNodeConfig(e)))
            && lookup_refused(host, resolved, e@)
    }
}

/// The step after the credential was fetched: without one the request ends with
/// the error; a URL that the credential's policy does not admit is answered with
/// status 403; a method that is none is an error; any other request is sent with
/// the credential's authentication.
pub open spec fn authorizes(
    req: CapabilityRequest,
    href: Seq<char>,
    fetched: Result<ProxyCredential, OrbflowError>,
    state: ProxyState,
    action: ProxyAction,
) -> bool {
    match fetched {
        Err(cause) => state is Ended && action == ProxyAction::Finish(Err(cause)),
        Ok(cred) => if !admits_domain(cred) {
            &&& state is Ended
            &&& action matches ProxyAction::Finish(Ok(resp)) && {
                &&& resp.status_code == 403
                &&& resp.headers@.len() == 0
                &&& resp.body is None
                &&& text::opt_text(resp.error) == Some(
                    "domain not allowed for credential '"@ + cred.name@ + "': "@ + req.url@,
                )
            }
        } else if !is_method(req.method@) {
            &&& state is Ended
            &&& action matches ProxyAction::Finish(Err(OrbflowError::InvalidNodeConfig(e))) && e@
                == "credential proxy invalid HTTP method '"@ + req.method@ + "': "@
                + "invalid HTTP method"@
        } else {
            &&& state is Sending
            &&& action matches ProxyAction::Send(out) && is_outgoing(
                out,
                req,
                href,
                injected_auth(json::members_view(cred.data@)),
            )
        },
    }
}

/// What the plugin gets of a reply: its status, its headers but for those that
/// could carry a secret, and its body.
pub open spec fn is_sanitized(
    resp: CapabilityResponse,
    status_code: u16,
    headers: Seq<Header>,
    body: Seq<u8>,
) -> bool {
    &&& resp.status_code == status_code
    &&& resp.error is None
    &&& named::names_once(text_pairs(resp.headers@))
    &&& named::last_values(text_pairs(resp.headers@)) == sanitized_headers(
        http::header_lines(headers),
    )
    &&& match resp.body {
        Some(value) => reply_body(json::json_parsed(body), body) == Some(value@),
        None => reply_body(json::json_parsed(body), body) is None,
    }
}

/// The step that an event leads to.
pub open spec fn proceeds(
    req: CapabilityRequest,
    state: ProxyState,
    event: ProxyEvent,
    next: ProxyState,
    action: ProxyAction,
) -> bool {
    match (state, event) {
        (ProxyState::Resolving { host, href }, ProxyEvent::Resolved(resolved)) => resolves(
            req,
            host@,
            href@,
            resolved,
            next,
            action,
        ),
        (ProxyState::Fetching { href }, ProxyEvent::Fetched(fetched)) => authorizes(
            req,
            href@,
            fetched,
            next,
            action,
        ),
        (ProxyState::Sending, ProxyEvent::NotSent(cause)) => {
            &&& next is Ended
            &&& action matches ProxyAction::Finish(Err(OrbflowError::Internal(e))) && e@
                == "credential proxy HTTP error: "@ + cause@
        },
        (ProxyState::Sending, ProxyEvent::Replied { status_code, headers, body }) => {
            &&& next is Ended
            &&& action matches ProxyAction::Finish(Ok(resp)) && is_sanitized(
                resp,
                status_code,
                headers@,
                body@,
            )
        },
        _ => false,
    }
}

/// The proxy: what it does with requests and replies.
#[derive(Debug, Clone, Copy)]
pub struct CredentialProxy;

fn ended(outcome: Result<CapabilityResponse, OrbflowError>) -> (r: (ProxyState, ProxyAction))
    ensures
        r.0 is Ended,
        r.1 == ProxyAction::Finish(outcome),
{
    (ProxyState::Ended, ProxyAction::Finish(outcome))
}

fn fetching(req: &CapabilityRequest, href: String) -> (r: (ProxyState, ProxyAction))
    ensures
        r.0 matches ProxyState::Fetching { href: held } && held@ == href@,
        r.1 matches ProxyAction::Fetch { credential_id, href: given } && credential_id@
            == req.credential_id@ && given@ == href@,
{
    let credential_id = req.credential_id.clone();
    (ProxyState::Fetching { href: href.clone() }, ProxyAction::Fetch { credential_id, href })
}

impl CredentialProxy {
    /// The proxy.
    pub fn new() -> (r: CredentialProxy)
        ensures
            r == CredentialProxy,
    {
        CredentialProxy
    }

    /// Takes a request from a plugin or MCP server:
    ///
    /// 1. Its URL is validated against block lists and private addresses.
    /// 2. Its credential is fetched.
    /// 3. Its URL is validated against the credential's domain policy.
    /// 4. It is sent with injected authentication.
    /// 5. The reply is sanitized and returned.
    ///
    /// `private_reason` is why the IPv4 address that the URL names is private,
    /// where it names one that is.
    pub fn handle(
        &self,
        req: &CapabilityRequest,
        blocked_hostnames: &Vec<String>,
        private_reason: Option<&str>,
    ) -> (r: (ProxyState, ProxyAction))
        ensures
            begins(
                *req,
                proxy_target(
                    weburl::url_parsed(req.url@),
                    text::texts(blocked_hostnames@),
                    text::opt_str(private_reason),
                ),
                r.0,
                r.1,
            ),
    {
        begin(req, validate_proxy_url(req.url.as_str(), blocked_hostnames, private_reason))
    }

    /// Takes a request one step on.
    pub fn proceed(&self, req: &CapabilityRequest, state: ProxyState, event: ProxyEvent) -> (r: (
        ProxyState,
        ProxyAction,
    ))
        requires
            awaits(state, event),
        ensures
            proceeds(*req, state, event, r.0, r.1),
    {
        match (state, event) {
            (ProxyState::Resolving { host, href }, ProxyEvent::Resolved(resolved)) => {
                match check_proxy_lookup(host.as_str(), resolved.as_ref()) {
                    Ok(()) => fetching(req, href),
                    Err(e) => ended(Err(e)),
                }
            },
            (ProxyState::Fetching { href }, ProxyEvent::Fetched(fetched)) => match fetched {
                Ok(cred) => authorize(req, href, &cred),
                Err(e) => ended(Err(e)),
            },
            (ProxyState::Sending, ProxyEvent::NotSent(cause)) => {
                let mut message = "credential proxy HTTP error: ".to_owned();
                message.append(cause.as_str());
                ended(Err(OrbflowError::Internal(message)))
            },
            (ProxyState::Sending, ProxyEvent::Replied { status_code, headers, body }) => {
                let headers = sanitize_headers(&headers);
                let body = response_body(body);
                ended(Ok(CapabilityResponse { status_code, headers, body, error: None }))
            },
            // No state awaits any other event.
            _ => ended(Err(OrbflowError::Conflict)),
        }
    }
}

/// The first step of a request, given where its URL leads.
pub fn begin(req: &CapabilityRequest, target: Result<ProxyTarget, OrbflowError>) -> (r: (
    ProxyState,
    ProxyAction,
))
    ensures
        match target {
            Err(e) => r.0 is Ended && r.1 == ProxyAction::Finish(Err(e)),
            Ok(t) => begins(*req, Ok(t@), r.0, r.1),
        },
{
    match target {
        Err(e) => ended(Err(e)),
        Ok(ProxyTarget::Admitted { href }) => fetching(req, href),
        Ok(ProxyTarget::Lookup { host, port, href }) => (
            ProxyState::Resolving { host: host.clone(), href },
            ProxyAction::LookUp { host, port },
        ),
    }
}

fn authorize(req: &CapabilityRequest, href: String, cred: &ProxyCredential) -> (r: (
    ProxyState,
    ProxyAction,
))
    ensures
        authorizes(*req, href@, Ok(*cred), r.0, r.1),
{
    if let Some(false) = cred.domain_allowed {
        let mut error = "domain not allowed for credential '".to_owned();
        error.append(cred.name.as_str());
        error.append("': ");
        error.append(req.url.as_str());
        return ended(
            Ok(
                CapabilityResponse {
                    status_code: 403,
                    headers: Vec::new(),
                    body: None,
                    error: Some(error),
                },
            ),
        );
    }
    if let Err(e) = parse_method(req.method.as_str()) {
        let mut message = "credential proxy invalid HTTP method '".to_owned();
        message.append(req.method.as_str());
        message.append("': ");
        message.append(e.as_str());
        return ended(Err(OrbflowError::InvalidNodeConfig(message)));
    }
    let auth = inject_auth(&cred.data);
    (ProxyState::Sending, ProxyAction::Send(outgoing_request(req, href, auth)))
}

/// The texts of a list of pairs.
pub open spec fn text_pairs(v: Seq<(String, String)>) -> Seq<(Seq<char>, Seq<char>)> {
    named::entries(v)
}

/// The header could carry a secret.
pub open spec fn is_sensitive_header(lower_name: Seq<char>) -> bool {
    ||| lower_name == "authorization"@
    ||| lower_name == "set-cookie"@
    ||| text::has_prefix(lower_name, "x-api-key"@)
}

/// The header lines of a reply that the plugin gets: those that carry no secret
/// and have a visible text, each name with its last value.
pub open spec fn sanitized_headers(lines: Seq<(Seq<char>, Seq<u8>)>) -> Map<Seq<char>, Seq<char>>
    decreases lines.len(),
{
    if lines.len() == 0 {
        Map::empty()
    } else {
        let before = sanitized_headers(lines.drop_last());
        let (name, value) = lines.last();
        match http::header_text(value) {
            Some(shown) => if is_sensitive_header(text::lowercase_text(name)) {
                before
            } else {
                before.insert(name, shown)
            },
            None => before,
        }
    }
}

fn sensitive_header(lower_name: &str) -> (r: bool)
    ensures
        r == is_sensitive_header(lower_name@),
{
    text::same_text(lower_name, "authorization") || text::same_text(lower_name, "set-cookie")
        || text::starts_with(lower_name, "x-api-key")
}

impl Named for (String, String) {
    type Model = Seq<char>;

    open spec fn entry(&self) -> (Seq<char>, Seq<char>) {
        (self.0@, self.1@)
    }

    fn name(&self) -> (r: &str) {
        self.0.as_str()
    }
}

/// The headers of a reply that the plugin gets.
pub fn sanitize_headers(headers: &Vec<Header>) -> (r: Vec<(String, String)>)
    ensures
        named::names_once(text_pairs(r@)),
        named::last_values(text_pairs(r@)) == sanitized_headers(http::header_lines(headers@)),
{
    let mut out: Vec<(String, String)> = Vec::new();
    let ghost lines = http::header_lines(headers@);
    let mut i: usize = 0;
    assert(named::last_values(text_pairs(out@)) =~= sanitized_headers(lines.take(0)));
    while i < headers.len()
        invariant
            i <= headers.len(),
            lines == http::header_lines(headers@),
            named::names_once(text_pairs(out@)),
            named::last_values(text_pairs(out@)) == sanitized_headers(lines.take(i as int)),
        decreases headers.len() - i,
    {
        assert(lines.take(i + 1).drop_last() =~= lines.take(i as int));
        let name = headers[i].name.as_str();
        if !sensitive_header(text::to_lowercase(name).as_str()) {
            if let Some(shown) = http::header_str(headers[i].value.as_slice()) {
                named::put(&mut out, (name.to_owned(), shown));
            }
        }
        i += 1;
    }
    assert(lines.take(lines.len() as int) =~= lines);
    out
}

/// The body that a plugin gets: the JSON document that it is, else its text, else
/// none.
pub open spec fn reply_body(parsed: Result<json::Json, Seq<char>>, bytes: Seq<u8>) -> Option<
    json::Json,
> {
    match parsed {
        Ok(value) => Some(value),
        Err(_) => if valid_utf8(bytes) {
            Some(json::Json::Text(decode_utf8(bytes)))
        } else {
            None
        },
    }
}

/// The body that a plugin gets, given what the bytes are as JSON.
pub fn body_or_text(parsed: Result<JsonValue, String>, bytes: Vec<u8>) -> (r: Option<JsonValue>)
    ensures
        match r {
            Some(value) => reply_body(
                match parsed {
                    Ok(v) => Ok(v@),
                    Err(e) => Err(e@),
                },
                bytes@,
            ) == Some(value@),
            None => parsed is Err && !valid_utf8(bytes@),
        },
{
    match parsed {
        Ok(value) => Some(value),
        Err(_) => match text::text_from_utf8(bytes) {
            Some(s) => Some(JsonValue::Text(s)),
            None => None,
        },
    }
}

/// The body that a plugin gets.
pub fn response_body(bytes: Vec<u8>) -> (r: Option<JsonValue>)
    ensures
        match r {
            Some(value) => reply_body(json::json_parsed(bytes@), bytes@) == Some(value@),
            None => reply_body(json::json_parsed(bytes@), bytes@) is None,
        },
{
    let parsed = json::parse_json(bytes.as_slice());
    body_or_text(parsed, bytes)
}

/// No header that could carry a secret reaches a plugin.
pub proof fn law_no_sensitive_header_is_returned(
    lines: Seq<(Seq<char>, Seq<u8>)>,
    name: Seq<char>,
)
    requires
        is_sensitive_header(text::lowercase_text(name)),
    ensures
        !sanitized_headers(lines).contains_key(name),
    decreases lines.len(),
{
    if lines.len() > 0 {
        law_no_sensitive_header_is_returned(lines.drop_last(), name);
    }
}

/// The states and actions of a request with this target, from its first step on,
/// and the events between them.
pub open spec fn is_run(
    req: CapabilityRequest,
    target: Result<TargetModel, Seq<char>>,
    states: Seq<ProxyState>,
    actions: Seq<ProxyAction>,
    events: Seq<ProxyEvent>,
) -> bool {
    &&& states.len() == events.len() + 1
    &&& actions.len() == states.len()
    &&& begins(req, target, states[0], actions[0])
    &&& forall|i: int|
        0 <= i < events.len() ==> proceeds(
            req,
            states[i],
            #[trigger] events[i],
            states[i + 1],
            actions[i + 1],
        )
}

/// The URL that a target leads to.
pub open spec fn target_href(target: TargetModel) -> Seq<char> {
    match target {
        TargetModel::Admitted { href } => href,
        TargetModel::Lookup { host, port, href } => href,
    }
}

/// The URL was validated by then: it was admitted as it stands, or its host had
/// resolved to public addresses, and to nothing else.
pub open spec fn validated_by(target: TargetModel, events: Seq<ProxyEvent>, by: int) -> bool {
    target is Lookup ==> {
        &&& by > 0
        &&& events[0] matches ProxyEvent::Resolved(resolved) && lookup_admitted(resolved)
    }
}

/// A request is sent only to its own URL, once that URL was validated, with a
/// credential that admits it, and with a method that is one; and the credential is
/// the one that the request names, fetched only once the URL was validated.
pub proof fn law_only_checked_requests_are_sent(
    req: CapabilityRequest,
    target: Result<TargetModel, Seq<char>>,
    states: Seq<ProxyState>,
    actions: Seq<ProxyAction>,
    events: Seq<ProxyEvent>,
    k: int,
)
    requires
        is_run(req, target, states, actions, events),
        0 <= k < actions.len(),
    ensures
        actions[k] matches ProxyAction::Fetch { credential_id, href } ==> {
            &&& credential_id@ == req.credential_id@
            &&& target matches Ok(t) && target_href(t) == href@ && validated_by(t, events, k)
        },
        actions[k] matches ProxyAction::Send(out) ==> {
            &&& k > 0
            &&& target matches Ok(t) && validated_by(t, events, k - 1)
            &&& events[k - 1] matches ProxyEvent::Fetched(Ok(cred)) && admits_domain(cred)
                && is_outgoing(
                out,
                req,
                target_href(target->Ok_0),
                injected_auth(json::members_view(cred.data@)),
            )
            &&& is_method(req.method@)
        },
{
    lemma_fetching_is_validated(req, target, states, actions, events, k);
    if k > 0 {
        assert(proceeds(req, states[k - 1], events[k - 1], states[k], actions[k]));
        lemma_fetching_is_validated(req, target, states, actions, events, k - 1);
    }
}

proof fn lemma_fetching_is_validated(
    req: CapabilityRequest,
    target: Result<TargetModel, Seq<char>>,
    states: Seq<ProxyState>,
    actions: Seq<ProxyAction>,
    events: Seq<ProxyEvent>,
    k: int,
)
    requires
        is_run(req, target, states, actions, events),
        0 <= k < states.len(),
    ensures
        actions[k] matches ProxyAction::Fetch { credential_id, href } ==> credential_id@
            == req.credential_id@,
        actions[k] matches ProxyAction::Fetch { credential_id, href } ==> states[k] matches ProxyState::Fetching {
            href: held,
        } && held@ == href@,
        states[k] matches ProxyState::Fetching { href } ==> {
            &&& target matches Ok(t) && target_href(t) == href@ && validated_by(t, events, k)
        },
        states[k] is Resolving ==> k == 0,
    decreases k,
{
    if k > 0 {
        assert(proceeds(req, states[k - 1], events[k - 1], states[k], actions[k]));
        lemma_fetching_is_validated(req, target, states, actions, events, k - 1);
    }
}

/// A URL that the proxy admits is an HTTPS URL whose host is neither `localhost`
/// nor on the block list, and whose IPv4 address, where it names one, is not
/// private.
pub proof fn law_admitted_proxy_url_is_safe(
    parts: weburl::UrlModel,
    blocked_hostnames: Seq<Seq<char>>,
    private_reason: Option<Seq<char>>,
)
    requires
        proxy_target(Ok(parts), blocked_hostnames, private_reason) is Ok,
    ensures
        parts.scheme == "https"@,
        transport::stated_host(parts) matches Some(host) && {
            let lower = text::ascii_lowercase(host);
            lower != "localhost"@ && !blocked_hostnames.contains(lower)
        },
        parts.host is Ipv4 ==> private_reason is None,
{
}

/// A proxy URL is refused where it does not parse, is not encrypted, has no host,
/// or its host is internal, or names a private IPv4 address, or has no port; else an
/// IPv4 address is admitted, and any other host is looked up. Each goes on under the
/// URL itself.
pub proof fn law_proxy_urls_are_admitted_or_refused(
    parts: weburl::UrlModel,
    blocked: Seq<Seq<char>>,
    reason: Option<Seq<char>>,
    e: Seq<char>,
)
    ensures
        proxy_target(Err(e), blocked, reason) == Err::<TargetModel, Seq<char>>(
            "invalid proxy URL: "@ + e,
        ),
        ({
            let r = proxy_target(Ok(parts), blocked, reason);
            let host = parts.host_text->0;
            let named = parts.host_text is Some && host.len() > 0;
            let lower = text::ascii_lowercase(host);
            let internal = lower == "localhost"@ || blocked.contains(lower);
            &&& parts.scheme != "https"@ ==> r == Err::<TargetModel, Seq<char>>(
                "credential proxy only allows HTTPS URLs"@,
            )
            &&& parts.scheme == "https"@ && !named ==> r == Err::<TargetModel, Seq<char>>(
                "proxy URL has no host"@,
            )
            &&& parts.scheme == "https"@ && named && internal ==> r == Err::<
                TargetModel,
                Seq<char>,
            >("credential proxy blocked request to internal host: "@ + host)
            &&& parts.scheme == "https"@ && named && !internal && parts.host is Ipv4
                && reason is Some ==> r == Err::<TargetModel, Seq<char>>(
                "credential proxy blocked request to "@ + reason->0 + ": "@ + host,
            )
            &&& parts.scheme == "https"@ && named && !internal && parts.host is Ipv4
                && reason is None ==> r == Ok::<TargetModel, Seq<char>>(
                TargetModel::Admitted { href: parts.href },
            )
            &&& parts.scheme == "https"@ && named && !internal && !(parts.host is Ipv4)
                && parts.port is None ==> r == Err::<TargetModel, Seq<char>>(
                "proxy URL has no port"@,
            )
            &&& parts.scheme == "https"@ && named && !internal && !(parts.host is Ipv4)
                && parts.port is Some ==> r == Ok::<TargetModel, Seq<char>>(
                TargetModel::Lookup { host, port: parts.port->0, href: parts.href },
            )
        }),
{
}

/// The text that a credential holds under a key.
pub open spec fn held_text(data: Seq<JsonMember>, key: Seq<char>) -> Option<Seq<char>> {
    match json::member(json::members_view(data), key) {
        Some(json::Json::Text(s)) => Some(s),
        _ => None,
    }
}

/// A credential authenticates by its API key where it holds one, else by its token,
/// else by its user name with its password, which is empty where it holds none; and
/// not at all where it holds none of them.
pub proof fn law_credentials_authenticate_by_what_they_hold(data: Seq<JsonMember>)
    ensures
        ({
            let auth = injected_auth(json::members_view(data));
            let key = held_text(data, "api_key"@);
            let token = held_text(data, "token"@);
            let user = held_text(data, "username"@);
            let password = held_text(data, "password"@);
            &&& key is Some ==> auth == AuthModel::Bearer("Bearer "@ + key->0)
            &&& key is None && token is Some ==> auth == AuthModel::Bearer("Bearer "@ + token->0)
            &&& key is None && token is None && user is Some && password is Some ==> auth == (
            AuthModel::Basic { username: user->0, password: password->0 })
            &&& key is None && token is None && user is Some && password is None ==> auth == (
            AuthModel::Basic { username: user->0, password: Seq::empty() })
            &&& key is None && token is None && user is None ==> auth is Nothing
        }),
{
}

/// A request goes out with the plugin's method, headers and body, each as it is, to
/// the URL that was validated and with the authentication, for half a minute.
pub proof fn law_requests_go_out_as_they_came(
    out: OutgoingRequest,
    req: CapabilityRequest,
    href: Seq<char>,
    auth: AuthModel,
)
    requires
        is_outgoing(out, req, href, auth),
    ensures
        out.method@ == req.method@,
        out.url@ == href,
        out.headers@.len() == req.headers@.len(),
        forall|i: int|
            0 <= i < req.headers@.len() ==> (#[trigger] out.headers@[i]).0@ == req.headers@[i].0@
                && out.headers@[i].1@ == req.headers@[i].1@,
        out.auth@ == auth,
        out.body is Some <==> req.body is Some,
        req.body is Some ==> out.body->0@ == req.body->0@,
        out.timeout_secs == 30,
{
    named::law_entries_are_modelled_one_by_one(out.headers@);
    named::law_entries_are_modelled_one_by_one(req.headers@);
    assert forall|i: int| 0 <= i < req.headers@.len() implies (#[trigger] out.headers@[i]).0@
        == req.headers@[i].0@ && out.headers@[i].1@ == req.headers@[i].1@ by {
        assert(text_pairs(out.headers@)[i] == text_pairs(req.headers@)[i]);
    }
}

/// What the proxy holds of a target or an authentication is what it was made with.
pub proof fn law_targets_and_authentications_are_modelled(
    target: ProxyTarget,
    auth: AuthInjection,
)
    ensures
        target matches ProxyTarget::Admitted { href } ==> target@ == (TargetModel::Admitted {
            href: href@,
        }),
        target matches ProxyTarget::Lookup { host, port, href } ==> target@ == (
        TargetModel::Lookup { host: host@, port, href: href@ }),
        auth matches AuthInjection::Bearer(value) ==> auth@ == AuthModel::Bearer(value@),
        auth matches AuthInjection::Basic { username, password } ==> auth@ == (AuthModel::Basic {
            username: username@,
            password: password@,
        }),
        auth is Nothing ==> auth@ is Nothing,
{
}

/// A host may be connected to exactly where it resolved to something, and to nothing
/// private.
pub proof fn law_private_addresses_are_refused(
    host: Seq<char>,
    resolved: Option<Vec<ResolvedAddress>>,
    e: Seq<char>,
)
    ensures
        lookup_admitted(resolved) <==> resolved is Some && resolved->0@.len() > 0 && forall|i: int|
            0 <= i < resolved->0@.len() ==> (#[trigger] resolved->0@[i]).private_reason is None,
        resolved is None && lookup_refused(host, resolved, e) ==> e
            == "credential proxy URL hostname '"@ + host + "' could not be resolved"@,
        resolved is Some && resolved->0@.len() == 0 && lookup_refused(host, resolved, e) ==> e
            == "credential proxy URL hostname '"@ + host + "' resolved no addresses"@,
        resolved is Some && resolved->0@.len() > 0 && lookup_refused(host, resolved, e)
            ==> exists|i: int|
            0 <= i < resolved->0@.len() && (#[trigger] resolved->0@[i]).private_reason is Some && e
                == "credential proxy URL hostname '"@ + host + "' resolves to "@
                + resolved->0@[i].private_reason->0@ + " ("@ + resolved->0@[i].ip@ + ")"@,
{
    if let Some(addresses) = resolved {
        ssrf::law_public_means_no_private_reason(addresses@, 0);
        if addresses@.len() > 0 && lookup_refused(host, resolved, e) {
            let name = "credential proxy URL hostname '"@ + host;
            let i = choose|i: int|
                {
                    &&& #[trigger] ssrf::first_private(addresses@, i)
                    &&& e == name + "' resolves to "@ + addresses@[i].private_reason->0@ + " ("@
                        + addresses@[i].ip@ + ")"@
                };
            assert(addresses@[i].private_reason is Some);
        }
    }
}

/// A request starts by looking its host up, or by fetching the credential that it
/// names where its address is admitted; one that is refused is over.
pub proof fn law_requests_start_with_their_target(
    req: CapabilityRequest,
    target: Result<TargetModel, Seq<char>>,
    state: ProxyState,
    action: ProxyAction,
)
    requires
        begins(req, target, state, action),
    ensures
        target matches Err(reason) ==> state is Ended && action is Finish && action->Finish_0 is Err
            && action->Finish_0->Err_0 is InvalidNodeConfig
            && action->Finish_0->Err_0->InvalidNodeConfig_0@ == reason,
        target matches Ok(TargetModel::Admitted { href }) ==> (state matches ProxyState::Fetching {
            href: held,
        } && held@ == href),
        target matches Ok(TargetModel::Admitted { href }) ==> (action matches ProxyAction::Fetch {
            credential_id,
            href: given,
        } && credential_id@ == req.credential_id@ && given@ == href),
        target matches Ok(TargetModel::Lookup { host, port, href }) ==> (state matches
            ProxyState::Resolving { host: h, href: held } && h@ == host && held@ == href),
        target matches Ok(TargetModel::Lookup { host, port, href }) ==> (action matches
            ProxyAction::LookUp { host: given, port: at } && given@ == host && at == port),
{
}

/// Once the host was looked up, the credential is fetched exactly where its
/// addresses may be connected to.
pub proof fn law_lookups_lead_to_the_credential(
    req: CapabilityRequest,
    host: String,
    href: String,
    resolved: Option<Vec<ResolvedAddress>>,
    next: ProxyState,
    action: ProxyAction,
)
    requires
        proceeds(
            req,
            ProxyState::Resolving { host, href },
            ProxyEvent::Resolved(resolved),
            next,
            action,
        ),
    ensures
        lookup_admitted(resolved) <==> action is Fetch,
        action is Fetch ==> (next matches ProxyState::Fetching { href: held } && held@ == href@),
        action matches ProxyAction::Fetch { credential_id, href: given } ==> credential_id@
            == req.credential_id@ && given@ == href@,
        !lookup_admitted(resolved) ==> next is Ended && action is Finish && action->Finish_0 is Err
            && action->Finish_0->Err_0 is InvalidNodeConfig && lookup_refused(
            host@,
            resolved,
            action->Finish_0->Err_0->InvalidNodeConfig_0@,
        ),
{
}

/// A request is sent exactly where there is a credential, no policy of it is against
/// the URL, and the method is one; it then carries what the credential authenticates
/// with. A URL that a policy is against is answered with status 403 and nothing else.
pub proof fn law_credentials_decide_what_is_sent(
    req: CapabilityRequest,
    href: String,
    fetched: Result<ProxyCredential, OrbflowError>,
    next: ProxyState,
    action: ProxyAction,
)
    requires
        proceeds(
            req,
            ProxyState::Fetching { href },
            ProxyEvent::Fetched(fetched),
            next,
            action,
        ),
    ensures
        action is Send <==> fetched is Ok && fetched->Ok_0.domain_allowed != Some(false)
            && is_method(req.method@),
        action is Send <==> next is Sending,
        action matches ProxyAction::Send(out) ==> is_outgoing(
            out,
            req,
            href@,
            injected_auth(json::members_view(fetched->Ok_0.data@)),
        ),
        fetched matches Err(cause) ==> next is Ended && action == ProxyAction::Finish(Err(cause)),
        fetched is Ok && fetched->Ok_0.domain_allowed == Some(false) ==> action is Finish
            && action->Finish_0 is Ok && action->Finish_0->Ok_0.status_code == 403
            && action->Finish_0->Ok_0.headers@.len() == 0 && action->Finish_0->Ok_0.body is None
            && action->Finish_0->Ok_0.error is Some && action->Finish_0->Ok_0.error->0@
            == "domain not allowed for credential '"@ + fetched->Ok_0.name@ + "': "@ + req.url@,
        fetched is Ok && fetched->Ok_0.domain_allowed != Some(false) && !is_method(req.method@)
            ==> action is Finish && action->Finish_0 is Err
            && action->Finish_0->Err_0 is InvalidNodeConfig
            && action->Finish_0->Err_0->InvalidNodeConfig_0@
            == "credential proxy invalid HTTP method '"@ + req.method@ + "': "@
            + "invalid HTTP method"@,
{
}

/// A reply reaches the plugin with its status, its headers without the sensitive
/// ones, and its body; one that did not come is an error.
pub proof fn law_replies_reach_the_plugin(
    req: CapabilityRequest,
    event: ProxyEvent,
    next: ProxyState,
    action: ProxyAction,
)
    requires
        proceeds(req, ProxyState::Sending, event, next, action),
    ensures
        next is Ended,
        event matches ProxyEvent::NotSent(cause) ==> action is Finish && action->Finish_0 is Err
            && action->Finish_0->Err_0 is Internal && action->Finish_0->Err_0->Internal_0@
            == "credential proxy HTTP error: "@ + cause@,
        event matches ProxyEvent::Replied { status_code, headers, body } ==> action is Finish
            && action->Finish_0 is Ok && action->Finish_0->Ok_0.status_code == status_code
            && action->Finish_0->Ok_0.error is None && is_sanitized(
            action->Finish_0->Ok_0,
            status_code,
            headers@,
            body@,
        ),
{
}

/// The name, in lower case, is of a header that could carry a secret: that of the
/// authorization, of a cookie that is set, or one that begins like an API key.
pub proof fn law_sensitive_headers_are_named(lower_name: Seq<char>, rest: Seq<char>)
    ensures
        is_sensitive_header("authorization"@),
        is_sensitive_header("set-cookie"@),
        is_sensitive_header("x-api-key"@ + rest),
        is_sensitive_header(lower_name) ==> lower_name == "authorization"@ || lower_name
            == "set-cookie"@ || lower_name == "x-api-key"@ + lower_name.skip(9),
{
    reveal_strlit("x-api-key");
    text::lemma_prefix_cut_off("x-api-key"@, rest);
    text::law_prefix_is_what_comes_first(lower_name, "x-api-key"@, rest);
}

/// The header line is one that a plugin may see.
pub open spec fn is_shown(line: (Seq<char>, Seq<u8>)) -> bool {
    http::header_text(line.1) is Some && !is_sensitive_header(text::lowercase_text(line.0))
}

/// A plugin gets each header that it may see, under its name and with the text of
/// its last value, and no other.
pub proof fn law_plugins_get_the_other_headers(
    lines: Seq<(Seq<char>, Seq<u8>)>,
    name: Seq<char>,
    i: int,
)
    ensures
        0 <= i < lines.len() && lines[i].0 == name && is_shown(lines[i]) && (forall|j: int|
            i < j < lines.len() && (#[trigger] lines[j]).0 == name ==> !is_shown(lines[j]))
            ==> sanitized_headers(lines).contains_key(name) && sanitized_headers(lines)[name]
            == http::header_text(lines[i].1)->0,
        (forall|j: int|
            0 <= j < lines.len() && (#[trigger] lines[j]).0 == name ==> !is_shown(lines[j]))
            ==> !sanitized_headers(lines).contains_key(name),
    decreases lines.len(),
{
    if lines.len() > 0 {
        let rest = lines.drop_last();
        let last = lines[lines.len() - 1];
        law_plugins_get_the_other_headers(rest, name, i);
        if forall|j: int|
            0 <= j < lines.len() && (#[trigger] lines[j]).0 == name ==> !is_shown(lines[j]) {
            assert forall|j: int|
                0 <= j < rest.len() && (#[trigger] rest[j]).0 == name implies !is_shown(
                rest[j],
            ) by {
                assert(lines[j] == rest[j]);
            }
            assert(last.0 == name ==> !is_shown(last));
        }
        if 0 <= i < rest.len() && lines[i].0 == name && is_shown(lines[i]) && (forall|j: int|
            i < j < lines.len() && (#[trigger] lines[j]).0 == name ==> !is_shown(lines[j])) {
            assert(rest[i] == lines[i]);
            assert forall|j: int|
                i < j < rest.len() && (#[trigger] rest[j]).0 == name implies !is_shown(
                rest[j],
            ) by {
                assert(lines[j] == rest[j]);
            }
            assert(last.0 == name ==> !is_shown(last));
        }
    }
}

/// The body of a reply is the JSON that it is, else the text that it is, else none.
pub proof fn law_reply_body_is_json_or_text(
    parsed: Result<json::Json, Seq<char>>,
    bytes: Seq<u8>,
)
    ensures
        parsed matches Ok(value) ==> reply_body(parsed, bytes) == Some(value),
        parsed is Err && valid_utf8(bytes) ==> reply_body(parsed, bytes) == Some(
            json::Json::Text(decode_utf8(bytes)),
        ),
        parsed is Err && !valid_utf8(bytes) ==> reply_body(parsed, bytes) is None,
{
}

/// What a plugin gets under a header's name is one line with the sanitized value,
/// and the body is the one of the reply.
pub proof fn law_sanitized_reply_is_what_is_shown(
    resp: CapabilityResponse,
    status_code: u16,
    headers: Seq<Header>,
    body: Seq<u8>,
    i: int,
)
    requires
        is_sanitized(resp, status_code, headers, body),
    ensures
        resp.status_code == status_code,
        resp.error is None,
        0 <= i < resp.headers@.len() ==> sanitized_headers(http::header_lines(headers)).contains_key(
            resp.headers@[i].0@,
        ) && sanitized_headers(http::header_lines(headers))[resp.headers@[i].0@]
            == resp.headers@[i].1@,
        resp.body is Some ==> reply_body(json::json_parsed(body), body) == Some(resp.body->0@),
        resp.body is None ==> reply_body(json::json_parsed(body), body) is None,
{
    named::law_entries_are_modelled_one_by_one(resp.headers@);
    if 0 <= i < resp.headers@.len() {
        named::lemma_last_value(text_pairs(resp.headers@), i);
        assert(text_pairs(resp.headers@)[i] == (resp.headers@[i].0@, resp.headers@[i].1@));
    }
}

/// What a URL comes to is its target, or its refusal with the reason.
pub proof fn law_target_or_refusal(
    r: Result<ProxyTarget, OrbflowError>,
    expected: Result<TargetModel, Seq<char>>,
)
    requires
        is_target(r, expected),
    ensures
        r is Ok <==> expected is Ok,
        r is Ok ==> r->Ok_0@ == expected->Ok_0,
        r is Err ==> r->Err_0 is InvalidNodeConfig && r->Err_0->InvalidNodeConfig_0@
            == expected->Err_0,
{
}

} // verus!
