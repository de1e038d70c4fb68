//! The checks that every request passes before it is routed: where it comes
//! from, which host it asks for, and which site sent it.
use axum::http::HeaderMap;
use vstd::prelude::*;
use vstd::string::StrSliceExecFns;

use crate::addr;
use crate::addr::{parse_address, IpAddr, Ipv4Addr, Ipv6Addr};
use crate::headers;
use crate::headers::header_text;
use crate::settings::WebGatewaySettings;
use crate::status::{BAD_REQUEST, FORBIDDEN, MISDIRECTED_REQUEST};
use crate::text;
use crate::text::{
    chars_of, find_first, find_last, lower_between, owned, same_text, strip_trailing_bound,
    trim_bounds,
};

verus! {

/// What becomes of a request at the guard.
#[derive(Debug, Clone, Copy, PartialEq, Eq, Structural)]
pub enum GuardDecision {
    /// The request goes on to its route.
    Allow,
    /// The request is answered with this status and an empty body.
    Reject(u16),
}

/// The IPv4 sources that are served: this machine, private networks, the
/// link, and the shared range where the settings admit it.
pub open spec fn allowed_ipv4(address: Ipv4Addr, allow_vpn_private: bool) -> bool {
    ||| address.loopback()
    ||| address.private()
    ||| allow_vpn_private && address.shared()
    ||| address.link_local()
}

/// The IPv6 sources that are served: this machine, the link and unique local
/// networks.
pub open spec fn allowed_ipv6(address: Ipv6Addr) -> bool {
    ||| address.loopback()
    ||| address.unicast_link_local()
    ||| address.unique_local()
}

pub open spec fn allowed_source(address: IpAddr, allow_vpn_private: bool) -> bool {
    match address {
        IpAddr::V4(address) => allowed_ipv4(address, allow_vpn_private),
        IpAddr::V6(address) => allowed_ipv6(address),
    }
}

/// The host that a `Host` header names: what stands in the brackets of an
/// IPv6 literal, or what stands before the last colon.
pub open spec fn host_part(value: Seq<char>) -> Option<Seq<char>> {
    let value = text::trimmed(value);
    if value.len() > 0 && value[0] == '[' {
        let rest = value.skip(1);
        let end = text::first_at(rest, ']');
        if end < rest.len() {
            Some(rest.take(end))
        } else {
            None
        }
    } else {
        let colon = text::last_at(value, ':');
        if colon >= 0 {
            Some(value.take(colon))
        } else {
            Some(value)
        }
    }
}

/// The form in which a requested host is compared.
pub open spec fn comparable_host(host: Seq<char>) -> Seq<char> {
    text::lowered(text::strip_trailing(host, '.'))
}

/// The host is a name of this machine as such, a configured name, or an
/// address of this machine. `literal` is the address that the comparable form
/// of the host spells, where it spells one.
pub open spec fn host_allowed(
    host: Seq<char>,
    configured: Seq<Seq<char>>,
    literal: Option<IpAddr>,
    local: Seq<IpAddr>,
) -> bool {
    let name = comparable_host(host);
    ||| name == "localhost"@
    ||| name == "127.0.0.1"@
    ||| name == "::1"@
    ||| configured.contains(name)
    ||| literal is Some && local.contains(literal->0)
}

/// The address that the host in the value of a `Host` header spells.
pub open spec fn host_literal(value: Option<Seq<char>>) -> Option<IpAddr> {
    match value {
        Some(value) => match host_part(value) {
            Some(host) => addr::address_literal(comparable_host(host)),
            None => None,
        },
        None => None,
    }
}

/// A method that changes nothing on the server.
pub open spec fn reading_method(method: Seq<char>) -> bool {
    method == "GET"@ || method == "HEAD"@
}

/// The page that sent the request is one of the host that it asks for.
pub open spec fn same_origin(origin: Seq<char>, host: Seq<char>) -> bool {
    origin == "http://"@ + host || origin == "https://"@ + host
}

/// What the guard decides.
pub open spec fn guard_decision(
    source: IpAddr,
    allow_vpn_private: bool,
    configured: Seq<Seq<char>>,
    host: Option<Seq<char>>,
    method: Seq<char>,
    origin: Option<Seq<char>>,
    literal: Option<IpAddr>,
    local: Seq<IpAddr>,
) -> GuardDecision {
    if !allowed_source(source, allow_vpn_private) {
        GuardDecision::Reject(FORBIDDEN)
    } else if host is None || host_part(host->0) is None {
        GuardDecision::Reject(BAD_REQUEST)
    } else if !host_allowed(host_part(host->0)->0, configured, literal, local) {
        GuardDecision::Reject(MISDIRECTED_REQUEST)
    } else if !reading_method(method) && origin is Some && !same_origin(origin->0, host->0) {
        GuardDecision::Reject(FORBIDDEN)
    } else {
        GuardDecision::Allow
    }
}

pub fn is_allowed_ipv4(address: Ipv4Addr, allow_vpn_private: bool) -> (result: bool)
    ensures
        result == allowed_ipv4(address, allow_vpn_private),
{
    address.is_loopback() || address.is_private() || (allow_vpn_private && address.is_shared())
        || address.is_link_local()
}

pub fn is_allowed_ipv6(address: Ipv6Addr) -> (result: bool)
    ensures
        result == allowed_ipv6(address),
{
    address.is_loopback() || address.is_unicast_link_local() || address.is_unique_local()
}

pub fn is_allowed_source(address: IpAddr, allow_vpn_private: bool) -> (result: bool)
    ensures
        result == allowed_source(address, allow_vpn_private),
{
    match address {
        IpAddr::V4(address) => is_allowed_ipv4(address, allow_vpn_private),
        IpAddr::V6(address) => is_allowed_ipv6(address),
    }
}

/// The host that a `Host` header names, without its port.
pub fn host_without_port(value: &str) -> (result: Option<&str>)
    ensures
        match result {
            Some(host) => host_part(value@) == Some(host@),
            None => host_part(value@) is None,
        },
{
    let chars = chars_of(value);
    assert(chars@.subrange(0, chars@.len() as int) =~= value@);
    let bounds = trim_bounds(&chars, 0, chars.len());
    let start: usize = bounds.0;
    let end: usize = bounds.1;
    let ghost trimmed = text::trimmed(value@);
    assert(trimmed == chars@.subrange(start as int, end as int));
    if start < end && chars[start] == '[' {
        let ghost rest = trimmed.skip(1);
        assert(rest =~= chars@.subrange(start + 1, end as int));
        return match find_first(&chars, start + 1, end, ']') {
            Some(i) => {
                assert(rest.take(i - start - 1) =~= value@.subrange(start + 1, i as int));
                Some(value.substring_char(start + 1, i))
            },
            None => None,
        };
    }
    match find_last(&chars, start, end, ':') {
        Some(i) => {
            assert(trimmed.take(i - start) =~= value@.subrange(start as int, i as int));
            Some(value.substring_char(start, i))
        },
        None => Some(value.substring_char(start, end)),
    }
}

fn comparable(host: &str) -> (result: String)
    ensures
        result@ == comparable_host(host@),
{
    let chars = chars_of(host);
    assert(chars@.subrange(0, chars@.len() as int) =~= host@);
    let end: usize = strip_trailing_bound(&chars, 0, chars.len(), '.');
    lower_between(&chars, 0, end)
}

/// Whether requests for `host` are answered. `literal` is the address that its
/// comparable form spells, where it spells one; `local` are the addresses of
/// this machine.
pub fn allowed_host_at(
    host: &str,
    configured: &Vec<String>,
    literal: Option<IpAddr>,
    local: &Vec<IpAddr>,
) -> (result: bool)
    ensures
        result == host_allowed(host@, text::texts(configured@), literal, local@),
{
    let name = comparable(host);
    if same_text(name.as_str(), "localhost") || same_text(name.as_str(), "127.0.0.1") || same_text(
        name.as_str(),
        "::1",
    ) {
        return true;
    }
    let ghost names = text::texts(configured@);
    let mut i: usize = 0;
    while i < configured.len()
        invariant
            names == text::texts(configured@),
            i <= configured@.len(),
            name@ == comparable_host(host@),
            forall|j: int| 0 <= j < i ==> #[trigger] names[j] != name@,
        decreases configured@.len() - i,
    {
        if same_text(configured[i].as_str(), name.as_str()) {
            assert(names[i as int] == name@);
            return true;
        }
        i += 1;
    }
    assert(!names.contains(name@));
    match literal {
        Some(address) => holds_address(local, address),
        None => false,
    }
}

/// Whether requests for `host` are answered; `local` are the addresses of this
/// machine.
pub fn allowed_host(host: &str, configured: &Vec<String>, local: &Vec<IpAddr>) -> (result: bool)
    ensures
        result == host_allowed(
            host@,
            text::texts(configured@),
            addr::address_literal(comparable_host(host@)),
            local@,
        ),
{
    let literal = parse_address(comparable(host).as_str());
    allowed_host_at(host, configured, literal, local)
}

fn holds_address(addresses: &Vec<IpAddr>, address: IpAddr) -> (result: bool)
    ensures
        result == addresses@.contains(address),
{
    let mut i: usize = 0;
    while i < addresses.len()
        invariant
            i <= addresses@.len(),
            forall|j: int| 0 <= j < i ==> addresses@[j] != address,
        decreases addresses@.len() - i,
    {
        if addresses[i] == address {
            return true;
        }
        i += 1;
    }
    false
}

/// The host that a request asks for, in the form in which it is compared.
pub fn requested_host(headers: &HeaderMap) -> (result: Option<String>)
    ensures
        match headers::header_str(*headers, "host"@) {
            Some(value) => match host_part(value) {
                Some(host) => result is Some && result->0@ == comparable_host(host),
                None => result is None,
            },
            None => result is None,
        },
{
    match header_text(headers, "host") {
        Some(value) => match host_without_port(value.as_str()) {
            Some(host) => Some(comparable(host)),
            None => None,
        },
        None => None,
    }
}

/// The address that the host of a request spells, where it spells one. A
/// request without one is decided on without the addresses of this machine.
pub fn requested_address(headers: &HeaderMap) -> (result: Option<IpAddr>)
    ensures
        result == host_literal(headers::header_str(*headers, "host"@)),
{
    match requested_host(headers) {
        Some(host) => parse_address(host.as_str()),
        None => None,
    }
}

/// Whether `origin` is a page of `host`.
fn is_same_origin(origin: &str, host: &str) -> (result: bool)
    ensures
        result == same_origin(origin@, host@),
{
    let mut plain = owned("http://");
    plain.append(host);
    let mut secure = owned("https://");
    secure.append(host);
    same_text(origin, plain.as_str()) || same_text(origin, secure.as_str())
}

/// Decides on a request. `literal` is the address that its host spells, where
/// it spells one; `local` are the addresses of this machine.
pub fn guard_at(
    source: IpAddr,
    settings: &WebGatewaySettings,
    headers: &HeaderMap,
    method: &str,
    literal: Option<IpAddr>,
    local: &Vec<IpAddr>,
) -> (result: GuardDecision)
    ensures
        result == guard_decision(
            source,
            settings.allow_vpn_private,
            text::texts(settings.allowed_hostnames@),
            headers::header_str(*headers, "host"@),
            method@,
            headers::header_str(*headers, "origin"@),
            literal,
            local@,
        ),
{
    if !is_allowed_source(source, settings.allow_vpn_private) {
        return GuardDecision::Reject(FORBIDDEN);
    }
    let value = match header_text(headers, "host") {
        Some(value) => value,
        None => {
            return GuardDecision::Reject(BAD_REQUEST);
        },
    };
    let host = match host_without_port(value.as_str()) {
        Some(host) => host,
        None => {
            return GuardDecision::Reject(BAD_REQUEST);
        },
    };
    if !allowed_host_at(host, &settings.allowed_hostnames, literal, local) {
        return GuardDecision::Reject(MISDIRECTED_REQUEST);
    }
    if !same_text(method, "GET") && !same_text(method, "HEAD") {
        match header_text(headers, "origin") {
            Some(origin) => {
                if !is_same_origin(origin.as_str(), value.as_str()) {
                    return GuardDecision::Reject(FORBIDDEN);
                }
            },
            None => {},
        }
    }
    GuardDecision::Allow
}

/// Decides on a request; `local` are the addresses of this machine.
pub fn guard(
    source: IpAddr,
    settings: &WebGatewaySettings,
    headers: &HeaderMap,
    method: &str,
    local: &Vec<IpAddr>,
) -> (result: GuardDecision)
    ensures
        result == guard_decision(
            source,
            settings.allow_vpn_private,
            text::texts(settings.allowed_hostnames@),
            headers::header_str(*headers, "host"@),
            method@,
            headers::header_str(*headers, "origin"@),
            host_literal(headers::header_str(*headers, "host"@)),
            local@,
        ),
{
    guard_at(source, settings, headers, method, requested_address(headers), local)
}

/// A request from outside the local networks is refused, whatever it asks for.
pub proof fn law_public_sources_are_refused(
    source: IpAddr,
    allow_vpn_private: bool,
    configured: Seq<Seq<char>>,
    host: Option<Seq<char>>,
    method: Seq<char>,
    origin: Option<Seq<char>>,
    literal: Option<IpAddr>,
    local: Seq<IpAddr>,
)
    requires
        !allowed_source(source, allow_vpn_private),
    ensures
        guard_decision(
            source,
            allow_vpn_private,
            configured,
            host,
            method,
            origin,
            literal,
            local,
        ) == GuardDecision::Reject(FORBIDDEN),
{
}

/// What the guard lets through comes from a local network, asks for a host of
/// this machine, and was not sent by another site where it can change
/// anything.
pub proof fn law_allowed_requests_are_local_and_expected(
    source: IpAddr,
    allow_vpn_private: bool,
    configured: Seq<Seq<char>>,
    host: Option<Seq<char>>,
    method: Seq<char>,
    origin: Option<Seq<char>>,
    literal: Option<IpAddr>,
    local: Seq<IpAddr>,
)
    requires
        guard_decision(
            source,
            allow_vpn_private,
            configured,
            host,
            method,
            origin,
            literal,
            local,
        ) == GuardDecision::Allow,
    ensures
        allowed_source(source, allow_vpn_private),
        host is Some,
        host_part(host->0) is Some,
        host_allowed(host_part(host->0)->0, configured, literal, local),
        reading_method(method) || origin is None || same_origin(origin->0, host->0),
{
}

/// The shared range is served only where the settings admit it, and no other
/// source depends on that setting.
pub proof fn law_shared_range_needs_the_setting(address: IpAddr)
    ensures
        address is V4 && address->V4_0.shared() ==> !allowed_source(address, false)
            && allowed_source(address, true),
        !(address is V4 && address->V4_0.shared()) ==> allowed_source(address, false)
            == allowed_source(address, true),
{
}

/// A host that spells an address is answered where the address is one of this
/// machine, and otherwise only under the fixed and the configured names.
pub proof fn law_addresses_are_answered_where_they_are_local(
    host: Seq<char>,
    configured: Seq<Seq<char>>,
    address: IpAddr,
    local: Seq<IpAddr>,
)
    requires
        addr::address_literal(comparable_host(host)) == Some(address),
    ensures
        local.contains(address) ==> host_allowed(host, configured, Some(address), local),
        !local.contains(address) ==> host_allowed(host, configured, Some(address), local)
            == host_allowed(host, configured, None, local),
{
}

/// Without a literal address the addresses of this machine decide nothing.
pub proof fn law_names_are_decided_on_without_addresses(
    host: Seq<char>,
    configured: Seq<Seq<char>>,
    local: Seq<IpAddr>,
    other: Seq<IpAddr>,
)
    ensures
        host_allowed(host, configured, None, local) == host_allowed(host, configured, None, other),
{
}

/// Letters' case and dots at the end do not tell requested hosts apart.
pub proof fn law_hosts_compare_without_case_and_final_dots(
    a: Seq<char>,
    b: Seq<char>,
    configured: Seq<Seq<char>>,
    literal: Option<IpAddr>,
    local: Seq<IpAddr>,
)
    requires
        text::lowered(text::strip_trailing(a, '.')) == text::lowered(
            text::strip_trailing(b, '.'),
        ),
    ensures
        host_allowed(a, configured, literal, local) == host_allowed(b, configured, literal, local),
{
}

} // verus!
