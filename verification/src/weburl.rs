//! Web URLs, taken apart.

use crate::text;
use vstd::prelude::*;

verus! {

/// The host of a URL. An address is given by its number.
#[derive(Debug, Clone, Copy, PartialEq, Eq, Structural)]
pub enum UrlHost {
    Absent,
    Domain,
    Ipv4(u32),
    Ipv6(u128),
}

/// The parts of a URL.
#[derive(Debug)]
pub struct UrlParts {
    /// The scheme, in lower case.
    pub scheme: String,
    /// The host as the URL writes it, an IPv6 address in brackets.
    pub host_text: Option<String>,
    pub host: UrlHost,
    /// The port, or the default port of the scheme.
    pub port: Option<u16>,
    /// The URL in normal form.
    pub href: String,
}

/// The model of the parts of a URL.
pub struct UrlModel {
    pub scheme: Seq<char>,
    pub host_text: Option<Seq<char>>,
    pub host: UrlHost,
    pub port: Option<u16>,
    pub href: Seq<char>,
}

impl View for UrlParts {
    type V = UrlModel;

    open spec fn view(&self) -> UrlModel {
        UrlModel {
            scheme: self.scheme@,
            host_text: text::opt_text(self.host_text),
            host: self.host,
            port: self.port,
            href: self.href@,
        }
    }
}

/// Names what the url crate makes of a text: the parts of the URL, or the text of
/// the error.
pub uninterp spec fn url_parsed(s: Seq<char>) -> Result<UrlModel, Seq<char>>;

/// `url::Url::parse`, with what `scheme`, `host_str`, `host`,
/// `port_or_known_default` and `as_str` say of its result.
#[verifier::external_body]
pub(crate) fn parse_url(s: &str) -> (r: Result<UrlParts, String>)
    ensures
        match r {
            Ok(parts) => url_parsed(s@) == Ok::<UrlModel, Seq<char>>(parts@),
            Err(e) => url_parsed(s@) == Err::<UrlModel, Seq<char>>(e@),
        },
{
    let parsed = url::Url::parse(s).map_err(|e| e.to_string())?;
    let scheme = parsed.scheme().to_owned();
    let host_text = parsed.host_str().map(|h| h.to_owned());
    let host = match parsed.host() {
        Some(url::Host::Ipv4(v4)) => UrlHost::Ipv4(u32::from(v4)),
        Some(url::Host::Ipv6(v6)) => UrlHost::Ipv6(u128::from(v6)),
        Some(url::Host::Domain(_)) => UrlHost::Domain,
        None => UrlHost::Absent,
    };
    let port = parsed.port_or_known_default();
    Ok(UrlParts { scheme, host_text, host, port, href: parsed.as_str().to_owned() })
}

/// The parts of a URL, or why it has none.
pub open spec fn parts_model(parsed: Result<UrlParts, String>) -> Result<UrlModel, Seq<char>> {
    match parsed {
        Ok(parts) => Ok(parts@),
        Err(e) => Err(e@),
    }
}

/// An IP address of the loopback interface: 127.0.0.0/8, or ::1.
pub open spec fn is_loopback_address(host: UrlHost) -> bool {
    match host {
        UrlHost::Ipv4(ip) => 0x7f00_0000 <= ip <= 0x7fff_ffff,
        UrlHost::Ipv6(ip) => ip == 1,
        _ => false,
    }
}

/// Whether the host is an IP address of the loopback interface.
pub fn loopback_address(host: UrlHost) -> (r: bool)
    ensures
        r == is_loopback_address(host),
{
    match host {
        UrlHost::Ipv4(ip) => 0x7f00_0000 <= ip && ip <= 0x7fff_ffff,
        UrlHost::Ipv6(ip) => ip == 1,
        _ => false,
    }
}

/// The host that the URL names by an IP address, if it is one.
pub fn url_address(s: &str) -> (r: Option<UrlHost>)
    ensures
        r == match url_parsed(s@) {
            Ok(parts) => if parts.host is Ipv4 || parts.host is Ipv6 {
                Some(parts.host)
            } else {
                None
            },
            Err(_) => None,
        },
{
    match parse_url(s) {
        Ok(parts) => match parts.host {
            UrlHost::Ipv4(_) => Some(parts.host),
            UrlHost::Ipv6(_) => Some(parts.host),
            _ => None,
        },
        Err(_) => None,
    }
}

/// The model of a URL holds each of its parts.
pub proof fn law_model_holds_each_part(parts: UrlParts)
    ensures
        parts@.scheme == parts.scheme@,
        parts@.host == parts.host,
        parts@.port == parts.port,
        parts@.href == parts.href@,
        parts@.host_text is Some <==> parts.host_text is Some,
        parts.host_text is Some ==> parts@.host_text->0 == parts.host_text->0@,
{
}

/// The loopback addresses are those whose first byte is 127, and the one IPv6
/// address that is 1; a name is none.
pub proof fn law_loopback_addresses(a: u8, b: u8, c: u8, d: u8, ip: u128)
    ensures
        is_loopback_address(
            UrlHost::Ipv4((a * 0x100_0000 + b * 0x1_0000 + c * 0x100 + d) as u32),
        ) <==> a == 127,
        is_loopback_address(UrlHost::Ipv6(ip)) <==> ip == 1,
        !is_loopback_address(UrlHost::Domain),
        !is_loopback_address(UrlHost::Absent),
{
}

/// What is known of a URL that was taken apart is its parts, or why it has none.
pub proof fn law_parts_or_the_error(parsed: Result<UrlParts, String>)
    ensures
        parsed is Ok ==> parts_model(parsed) == Ok::<UrlModel, Seq<char>>(parsed->Ok_0@),
        parsed is Err ==> parts_model(parsed) == Err::<UrlModel, Seq<char>>(parsed->Err_0@),
{
}

} // verus!
