//! MCP transport: which server URLs may be called, and what a call returns.

use crate::error::OrbflowError;
use crate::json::JsonValue;
use crate::ssrf;
use crate::ssrf::{ResolveError, ResolvedAddress};
use crate::text;
use crate::weburl;
use crate::weburl::{UrlHost, UrlParts};
use vstd::prelude::*;

verus! {

/// Policy for loopback MCP endpoints.
///
/// Production paths use [`McpLocalhostPolicy::Deny`]. Local development can opt in
/// with [`McpLocalhostPolicy::AllowForDev`], which permits localhost and literal
/// loopback URLs while private, link-local, and metadata endpoints stay blocked.
#[derive(Debug, Clone, Copy, PartialEq, Eq, Structural)]
pub enum McpLocalhostPolicy {
    Deny,
    AllowForDev,
}

impl McpLocalhostPolicy {
    /// Whether loopback endpoints are permitted.
    pub fn allow_localhost(self) -> (r: bool)
        ensures
            r == (self == McpLocalhostPolicy::AllowForDev),
    {
        match self {
            McpLocalhostPolicy::Deny => false,
            McpLocalhostPolicy::AllowForDev => true,
        }
    }
}

/// The name without the dots at its end.
pub open spec fn without_end_dots(name: Seq<char>) -> Seq<char>
    decreases name.len(),
{
    if name.len() > 0 && name.last() == '.' {
        without_end_dots(name.drop_last())
    } else {
        name
    }
}

fn trim_end_dots(name: &str) -> (r: String)
    ensures
        r@ == without_end_dots(name@),
{
    let chars = text::chars_of(name);
    let mut to: usize = chars.len();
    assert(name@.take(to as int) =~= name@);
    while to > 0 && chars[to - 1] == '.'
        invariant
            to <= chars.len(),
            chars@ == name@,
            without_end_dots(name@) == without_end_dots(name@.take(to as int)),
        decreases to,
    {
        assert(name@.take(to as int).drop_last() =~= name@.take(to - 1));
        to -= 1;
    }
    assert(chars@.subrange(0, to as int) =~= name@.take(to as int));
    text::text_of(&chars, 0, to)
}

/// The host name is `localhost`, in upper or lower case, with or without dots at
/// its end.
pub open spec fn is_localhost_name(name: Seq<char>) -> bool {
    text::ascii_lowercase(without_end_dots(name)) == text::ascii_lowercase("localhost"@)
}

/// A resolver that keeps only the addresses that the policy admits.
#[derive(Debug, Clone, Copy)]
pub struct McpSsrfSafeResolver {
    pub localhost_policy: McpLocalhostPolicy,
}

impl McpSsrfSafeResolver {
    /// Whether the loopback addresses of this host name count as public: where the
    /// policy permits loopback endpoints, and only for `localhost`.
    pub fn admits_loopback(&self, name: &str) -> (r: bool)
        ensures
            r == (self.localhost_policy == McpLocalhostPolicy::AllowForDev && is_localhost_name(
                name@,
            )),
    {
        self.localhost_policy.allow_localhost() && text::same_text_ignoring_ascii_case(
            trim_end_dots(name).as_str(),
            "localhost",
        )
    }

    /// The positions of the addresses that may be connected to; an error where
    /// there is none.
    pub fn resolve(&self, addresses: &Vec<ResolvedAddress>) -> (r: Result<
        Vec<usize>,
        ResolveError,
    >)
        ensures
            match r {
                Ok(kept) => kept@.len() > 0 && kept@ == ssrf::public_positions(addresses@),
                Err(e) => {
                    &&& ssrf::public_positions(addresses@).len() == 0
                    &&& e.kind == ssrf::ResolveErrorKind::PermissionDenied
                    &&& e.message@
                        == "all resolved addresses are private/internal (SSRF protection)"@
                },
            },
    {
        ssrf::keep_public(addresses)
    }
}

/// The scheme is one that an MCP server may be called by.
pub open spec fn is_web_scheme(scheme: Seq<char>) -> bool {
    scheme == "http"@ || scheme == "https"@
}

/// The host of a URL, where it is there and not empty.
pub open spec fn stated_host(parts: weburl::UrlModel) -> Option<Seq<char>> {
    match parts.host_text {
        Some(host) => if host.len() > 0 {
            Some(host)
        } else {
            None
        },
        None => None,
    }
}

/// The lower-cased host, or the address, is that of this machine.
pub open spec fn targets_loopback(lower_host: Seq<char>, host: UrlHost) -> bool {
    lower_host == "localhost"@ || weburl::is_loopback_address(host)
}

/// Why a URL with a host is refused; nothing where it is not. `lower_host` is the
/// host in lower case, and `private_reason` is why the host's address is private,
/// where it is an address that is.
pub open spec fn mcp_host_refused(
    parts: weburl::UrlModel,
    host: Seq<char>,
    lower_host: Seq<char>,
    allow_localhost: bool,
    blocked_hostnames: Seq<Seq<char>>,
    private_reason: Option<Seq<char>>,
) -> Option<Seq<char>> {
    let loopback = targets_loopback(lower_host, parts.host);
    if blocked_hostnames.contains(lower_host) {
        Some("MCP server URL points to cloud metadata endpoint"@)
    } else if loopback && !allow_localhost {
        Some("MCP server URL points to localhost; enable MCP localhost dev mode to allow it"@)
    } else if parts.scheme == "http"@ && !(allow_localhost && loopback) {
        Some("MCP server URL must use HTTPS unless MCP localhost dev mode is enabled"@)
    } else if (parts.host is Ipv4 || parts.host is Ipv6) && private_reason is Some {
        Some("MCP server URL points to "@ + private_reason->0 + ": "@ + host)
    } else {
        None
    }
}

/// Why the URL is refused; nothing where it is not. `lower_host` is its host in
/// lower case.
pub open spec fn mcp_url_refused(
    url: Seq<char>,
    parsed: Result<weburl::UrlModel, Seq<char>>,
    lower_host: Seq<char>,
    allow_localhost: bool,
    blocked_hostnames: Seq<Seq<char>>,
    private_reason: Option<Seq<char>>,
) -> Option<Seq<char>> {
    match parsed {
        Err(_) => Some("invalid MCP URL: "@ + url),
        Ok(parts) => if !is_web_scheme(parts.scheme) {
            Some(
                "MCP URL scheme '"@ + parts.scheme + "' is not allowed (only http and https)"@,
            )
        } else {
            match stated_host(parts) {
                None => Some("MCP URL has no host: "@ + url),
                Some(host) => mcp_host_refused(
                    parts,
                    host,
                    lower_host,
                    allow_localhost,
                    blocked_hostnames,
                    private_reason,
                ),
            }
        },
    }
}

/// `r` refuses the configuration for the reason, or accepts it where there is none.
pub open spec fn refuses_config(r: Result<(), OrbflowError>, reason: Option<Seq<char>>) -> bool {
    match reason {
        Some(message) => r matches Err(OrbflowError::InvalidNodeConfig(e)) && e@ == message,
        None => r is Ok,
    }
}

/// The host of the parts in lower case; empty where there is none.
pub open spec fn lower_host(parsed: Result<weburl::UrlModel, Seq<char>>) -> Seq<char> {
    match parsed {
        Ok(parts) => match stated_host(parts) {
            Some(host) => text::lowercase_text(host),
            None => Seq::empty(),
        },
        Err(_) => Seq::empty(),
    }
}

fn refused(message: String) -> (r: Result<(), OrbflowError>)
    ensures
        refuses_config(r, Some(message@)),
{
    Err(OrbflowError::InvalidNodeConfig(message))
}

/// Checks a URL that was taken apart, given its host in lower case.
pub fn check_mcp_url(
    url: &str,
    parsed: &Result<UrlParts, String>,
    lower_host: &str,
    localhost_policy: McpLocalhostPolicy,
    blocked_hostnames: &Vec<String>,
    private_reason: Option<&str>,
) -> (r: Result<(), OrbflowError>)
    ensures
        refuses_config(
            r,
            mcp_url_refused(
                url@,
                weburl::parts_model(*parsed),
                lower_host@,
                localhost_policy == McpLocalhostPolicy::AllowForDev,
                text::texts(blocked_hostnames@),
                text::opt_str(private_reason),
            ),
        ),
{
    let parts = match parsed {
        Ok(parts) => parts,
        Err(_) => {
            let mut message = "invalid MCP URL: ".to_owned();
            message.append(url);
            return refused(message);
        },
    };
    let scheme = parts.scheme.as_str();
    if !text::same_text(scheme, "http") && !text::same_text(scheme, "https") {
        let mut message = "MCP URL scheme '".to_owned();
        message.append(scheme);
        message.append("' is not allowed (only http and https)");
        return refused(message);
    }
    let host = match &parts.host_text {
        Some(host) => if host.as_str().is_empty() {
            None
        } else {
            Some(host)
        },
        None => None,
    };
    let host = match host {
        Some(host) => host,
        None => {
            let mut message = "MCP URL has no host: ".to_owned();
            message.append(url);
            return refused(message);
        },
    };
    if text::contains_among(blocked_hostnames, lower_host) {
        return refused("MCP server URL points to cloud metadata endpoint".to_owned());
    }
    let allow_localhost = localhost_policy.allow_localhost();
    let is_loopback_target = text::same_text(lower_host, "localhost") || weburl::loopback_address(
        parts.host,
    );
    if is_loopback_target && !allow_localhost {
        return refused(
            "MCP server URL points to localhost; enable MCP localhost dev mode to allow it".to_owned(),
        );
    }
    if text::same_text(scheme, "http") && !(allow_localhost && is_loopback_target) {
        return refused(
            "MCP server URL must use HTTPS unless MCP localhost dev mode is enabled".to_owned(),
        );
    }
    let is_address = match parts.host {
        UrlHost::Ipv4(_) => true,
        UrlHost::Ipv6(_) => true,
        _ => false,
    };
    if is_address {
        if let Some(reason) = private_reason {
            let mut message = "MCP server URL points to ".to_owned();
            message.append(reason);
            message.append(": ");
            message.append(host.as_str());
            return refused(message);
        }
    }
    Ok(())
}

/// Validates that a URL does not point to a private, link-local, or cloud-metadata
/// address. `private_reason` is why the address that the URL names is private,
/// where it names one that is.
pub fn validate_mcp_url(
    url: &str,
    localhost_policy: McpLocalhostPolicy,
    blocked_hostnames: &Vec<String>,
    private_reason: Option<&str>,
) -> (r: Result<(), OrbflowError>)
    ensures
        refuses_config(
            r,
            mcp_url_refused(
                url@,
                weburl::url_parsed(url@),
                lower_host(weburl::url_parsed(url@)),
                localhost_policy == McpLocalhostPolicy::AllowForDev,
                text::texts(blocked_hostnames@),
                text::opt_str(private_reason),
            ),
        ),
{
    let parsed = weburl::parse_url(url);
    let lower = match &parsed {
        Ok(parts) => match &parts.host_text {
            Some(host) => if host.as_str().is_empty() {
                String::new()
            } else {
                text::to_lowercase(host.as_str())
            },
            None => String::new(),
        },
        Err(_) => String::new(),
    };
    proof {
        assert(lower@ =~= lower_host(weburl::url_parsed(url@)));
    }
    check_mcp_url(
        url,
        &parsed,
        lower.as_str(),
        localhost_policy,
        blocked_hostnames,
        private_reason,
    )
}

/// HTTP transport for communicating with remote MCP servers.
#[derive(Debug)]
pub struct HttpTransport {
    pub base_url: String,
    pub localhost_policy: McpLocalhostPolicy,
}

/// `r` is the transport to the URL under the policy, or the refusal of the URL.
pub open spec fn transport_or_refusal(
    r: Result<HttpTransport, OrbflowError>,
    url: Seq<char>,
    localhost_policy: McpLocalhostPolicy,
    blocked_hostnames: Seq<Seq<char>>,
    private_reason: Option<Seq<char>>,
) -> bool {
    match mcp_url_refused(
        url,
        weburl::url_parsed(url),
        lower_host(weburl::url_parsed(url)),
        localhost_policy == McpLocalhostPolicy::AllowForDev,
        blocked_hostnames,
        private_reason,
    ) {
        Some(message) => r matches Err(OrbflowError::InvalidNodeConfig(e)) && e@ == message,
        None => r matches Ok(t) && t.base_url@ == url && t.localhost_policy == localhost_policy,
    }
}

/// The reply of an MCP server to a JSON-RPC request.
#[derive(Debug)]
pub struct JsonRpcResponse {
    pub result: Option<JsonValue>,
    /// The message of the error, where the reply is one.
    pub error: Option<String>,
}

/// What came back of a request.
#[derive(Debug)]
pub enum SendOutcome {
    /// It could not be sent.
    NotSent(String),
    /// A reply with this status came, and its body, where the status was one of
    /// success, was a JSON-RPC response, or not for this reason.
    Replied { status: u16, body: Result<JsonRpcResponse, String> },
}

impl HttpTransport {
    /// A transport for the given MCP server URL. Localhost is denied.
    pub fn new(
        base_url: &str,
        blocked_hostnames: &Vec<String>,
        private_reason: Option<&str>,
    ) -> (r: Result<HttpTransport, OrbflowError>)
        ensures
            transport_or_refusal(
                r,
                base_url@,
                McpLocalhostPolicy::Deny,
                text::texts(blocked_hostnames@),
                text::opt_str(private_reason),
            ),
    {
        HttpTransport::new_with_localhost_policy(
            base_url,
            McpLocalhostPolicy::Deny,
            blocked_hostnames,
            private_reason,
        )
    }

    /// A transport with an explicit localhost policy.
    pub fn new_with_localhost_policy(
        base_url: &str,
        localhost_policy: McpLocalhostPolicy,
        blocked_hostnames: &Vec<String>,
        private_reason: Option<&str>,
    ) -> (r: Result<HttpTransport, OrbflowError>)
        ensures
            transport_or_refusal(
                r,
                base_url@,
                localhost_policy,
                text::texts(blocked_hostnames@),
                text::opt_str(private_reason),
            ),
    {
        match validate_mcp_url(base_url, localhost_policy, blocked_hostnames, private_reason) {
            Ok(()) => Ok(HttpTransport { base_url: base_url.to_owned(), localhost_policy }),
            Err(e) => Err(e),
        }
    }

    /// What a request returns, given what came back of it: the response of a reply
    /// with a status of success, else an error.
    pub fn send(&self, outcome: SendOutcome) -> (r: Result<JsonRpcResponse, OrbflowError>)
        ensures
            match outcome {
                SendOutcome::NotSent(cause) => r matches Err(OrbflowError::Internal(e)) && e@
                    == "MCP transport error: "@ + cause@,
                SendOutcome::Replied { status, body } => if 200 <= status < 300 {
                    match body {
                        Ok(response) => r == Ok::<JsonRpcResponse, OrbflowError>(response),
                        Err(cause) => r matches Err(OrbflowError::Internal(e)) && e@
                            == "MCP response parse error: "@ + cause@,
                    }
                } else {
                    r matches Err(OrbflowError::Internal(e)) && e@ == "MCP server request failed"@
                },
            },
    {
        match outcome {
            SendOutcome::NotSent(cause) => {
                let mut message = "MCP transport error: ".to_owned();
                message.append(cause.as_str());
                Err(OrbflowError::Internal(message))
            },
            SendOutcome::Replied { status, body } => {
                if !(200 <= status && status < 300) {
                    return Err(OrbflowError::Internal("MCP server request failed".to_owned()));
                }
                match body {
                    Ok(response) => Ok(response),
                    Err(cause) => {
                        let mut message = "MCP response parse error: ".to_owned();
                        message.append(cause.as_str());
                        Err(OrbflowError::Internal(message))
                    },
                }
            },
        }
    }
}

/// A URL that is accepted goes over HTTPS, or to this machine where the policy
/// permits that; its host is on no block list and its address is not private.
pub proof fn law_accepted_mcp_url_is_safe(
    url: Seq<char>,
    parts: weburl::UrlModel,
    lower_host: Seq<char>,
    allow_localhost: bool,
    blocked_hostnames: Seq<Seq<char>>,
    private_reason: Option<Seq<char>>,
)
    requires
        mcp_url_refused(
            url,
            Ok(parts),
            lower_host,
            allow_localhost,
            blocked_hostnames,
            private_reason,
        ) is None,
    ensures
        parts.scheme == "https"@ || (allow_localhost && targets_loopback(lower_host, parts.host)),
        targets_loopback(lower_host, parts.host) ==> allow_localhost,
        !blocked_hostnames.contains(lower_host),
        parts.host is Ipv4 || parts.host is Ipv6 ==> private_reason is None,
        stated_host(parts) is Some,
{
}

/// Permitting loopback endpoints permits nothing but those: any other URL that it
/// accepts is accepted without it.
pub proof fn law_dev_mode_only_adds_loopback(
    url: Seq<char>,
    parts: weburl::UrlModel,
    lower_host: Seq<char>,
    blocked_hostnames: Seq<Seq<char>>,
    private_reason: Option<Seq<char>>,
)
    requires
        !targets_loopback(lower_host, parts.host),
    ensures
        mcp_url_refused(url, Ok(parts), lower_host, true, blocked_hostnames, private_reason)
            == mcp_url_refused(
            url,
            Ok(parts),
            lower_host,
            false,
            blocked_hostnames,
            private_reason,
        ),
{
}

/// A server URL is refused where it does not parse, is for another protocol, or has
/// no host; where its host is blocked; where it is of this machine without leave;
/// where it is not encrypted and not of this machine; and where its address is
/// private. Every other one is accepted.
pub proof fn law_mcp_urls_are_accepted_or_refused(
    url: Seq<char>,
    parts: weburl::UrlModel,
    lower: Seq<char>,
    allow_localhost: bool,
    blocked: Seq<Seq<char>>,
    reason: Option<Seq<char>>,
    e: Seq<char>,
)
    ensures
        mcp_url_refused(url, Err(e), lower, allow_localhost, blocked, reason) == Some(
            "invalid MCP URL: "@ + url,
        ),
        ({
            let r = mcp_url_refused(url, Ok(parts), lower, allow_localhost, blocked, reason);
            let web = parts.scheme == "http"@ || parts.scheme == "https"@;
            let named = parts.host_text is Some && parts.host_text->0.len() > 0;
            let own = lower == "localhost"@ || weburl::is_loopback_address(parts.host);
            let address = parts.host is Ipv4 || parts.host is Ipv6;
            &&& !web ==> r == Some(
                "MCP URL scheme '"@ + parts.scheme + "' is not allowed (only http and https)"@,
            )
            &&& web && !named ==> r == Some("MCP URL has no host: "@ + url)
            &&& web && named && blocked.contains(lower) ==> r == Some(
                "MCP server URL points to cloud metadata endpoint"@,
            )
            &&& web && named && !blocked.contains(lower) && own && !allow_localhost ==> r == Some(
                "MCP server URL points to localhost; enable MCP localhost dev mode to allow it"@,
            )
            &&& web && named && !blocked.contains(lower) && !own && parts.scheme == "http"@ ==> r
                == Some("MCP server URL must use HTTPS unless MCP localhost dev mode is enabled"@)
            &&& web && named && !blocked.contains(lower) && (own && allow_localhost || !own
                && parts.scheme == "https"@) && address && reason is Some ==> r == Some(
                "MCP server URL points to "@ + reason->0 + ": "@ + parts.host_text->0,
            )
            &&& web && named && !blocked.contains(lower) && (own && allow_localhost || !own
                && parts.scheme == "https"@) && !(address && reason is Some) ==> r is None
        }),
{
    reveal_strlit("http");
    reveal_strlit("https");
    assert("http"@.len() != "https"@.len());
}

/// The host that is checked is the one of the URL, in lower case.
pub proof fn law_checked_host_is_that_of_the_url(parsed: Result<weburl::UrlModel, Seq<char>>)
    ensures
        parsed is Ok && parsed->Ok_0.host_text is Some && parsed->Ok_0.host_text->0.len() > 0
            ==> lower_host(parsed) == text::lowercase_text(parsed->Ok_0.host_text->0),
        parsed is Err || parsed->Ok_0.host_text is None || parsed->Ok_0.host_text->0.len() == 0
            ==> lower_host(parsed).len() == 0,
{
}

/// A transport leads to the URL that it was made for, under the policy that it was
/// made with, and there is none to a URL that is refused.
pub proof fn law_transport_leads_to_its_url(
    r: Result<HttpTransport, OrbflowError>,
    url: Seq<char>,
    policy: McpLocalhostPolicy,
    blocked: Seq<Seq<char>>,
    reason: Option<Seq<char>>,
)
    requires
        transport_or_refusal(r, url, policy, blocked, reason),
    ensures
        ({
            let refused = mcp_url_refused(
                url,
                weburl::url_parsed(url),
                lower_host(weburl::url_parsed(url)),
                policy == McpLocalhostPolicy::AllowForDev,
                blocked,
                reason,
            );
            &&& r is Ok <==> refused is None
            &&& r matches Ok(t) ==> t.base_url@ == url && t.localhost_policy == policy
            &&& r is Err ==> r->Err_0 is InvalidNodeConfig && refused == Some(
                r->Err_0->InvalidNodeConfig_0@,
            )
        }),
{
}

/// A configuration is accepted exactly where there is no reason against it, and else
/// refused for that reason.
pub proof fn law_refusals_give_their_reason(
    r: Result<(), OrbflowError>,
    reason: Option<Seq<char>>,
)
    requires
        refuses_config(r, reason),
    ensures
        r is Ok <==> reason is None,
        r is Err ==> r->Err_0 is InvalidNodeConfig && reason == Some(r->Err_0->InvalidNodeConfig_0@),
{
}

/// Cutting off the dots at the end of a name cuts off dots and nothing else, and all
/// of them.
pub proof fn law_end_dots_are_cut_off(name: Seq<char>)
    ensures
        without_end_dots(name).len() <= name.len(),
        without_end_dots(name) == name.take(without_end_dots(name).len() as int),
        forall|i: int| without_end_dots(name).len() <= i < name.len() ==> (#[trigger] name[i])
            == '.',
        without_end_dots(name).len() > 0 ==> without_end_dots(name).last() != '.',
    decreases name.len(),
{
    if name.len() > 0 && name.last() == '.' {
        let rest = name.drop_last();
        law_end_dots_are_cut_off(rest);
        let cut = without_end_dots(name);
        assert(cut =~= name.take(cut.len() as int));
        assert forall|i: int| cut.len() <= i < name.len() implies (#[trigger] name[i]) == '.' by {
            if i < rest.len() {
                assert(rest[i] == '.');
            }
        }
    } else {
        assert(name.take(name.len() as int) =~= name);
    }
}

/// A name is that of this machine exactly where it is `localhost` in any case, with
/// any number of dots behind.
pub proof fn law_localhost_goes_by_its_name(name: Seq<char>)
    ensures
        is_localhost_name(name) <==> text::ascii_lowercase(without_end_dots(name)) == "localhost"@,
{
    reveal_strlit("localhost");
    assert(text::ascii_lowercase("localhost"@) =~= "localhost"@);
}

} // verus!
