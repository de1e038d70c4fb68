//! Which requests the guard lets in, in terms of the octets of addresses and the
//! letters of headers.
use vstd::prelude::*;

use crate::addr::{IpAddr, Ipv4Addr, Ipv6Addr};
use crate::network_guard;
use crate::network_guard::GuardDecision;
use crate::text;

verus! {

/// The address of four octets.
pub open spec fn of_octets(a: u8, b: u8, c: u8, d: u8) -> Ipv4Addr {
    Ipv4Addr { bits: (a * 0x100_0000 + b * 0x1_0000 + c * 0x100 + d) as u32 }
}

/// The IPv6 address that begins with a segment.
pub open spec fn of_segment(first: u16, rest: u128) -> Ipv6Addr {
    Ipv6Addr { bits: (first * 0x1_0000_0000_0000_0000_0000_0000_0000 + rest) as u128 }
}

/// The networks of IPv4, by their octets.
pub proof fn law_networks_by_their_octets(a: u8, b: u8, c: u8, d: u8)
    ensures
        of_octets(a, b, c, d).loopback() <==> a == 127,
        of_octets(a, b, c, d).private() <==> a == 10 || (a == 172 && 16 <= b <= 31) || (a == 192
            && b == 168),
        of_octets(a, b, c, d).link_local() <==> a == 169 && b == 254,
        of_octets(a, b, c, d).shared() <==> a == 100 && 64 <= b <= 127,
{
}

/// The sources of IPv4 that are served, by their octets: this machine, the
/// private networks and the link; and, where the setting says so, the range that
/// a VPN shares.
pub proof fn law_served_sources_by_their_octets(a: u8, b: u8, c: u8, d: u8, vpn: bool)
    ensures
        network_guard::allowed_source(IpAddr::V4(of_octets(a, b, c, d)), vpn) <==> a == 127 || a
            == 10 || (a == 172 && 16 <= b <= 31) || (a == 192 && b == 168) || (a == 169 && b
            == 254) || (vpn && a == 100 && 64 <= b <= 127),
{
}

/// The sources of IPv6 that are served, by their first segment: this machine,
/// the link and the local networks.
pub proof fn law_served_sources_by_their_segment(first: u16, rest: u128, vpn: bool)
    requires
        rest < 0x1_0000_0000_0000_0000_0000_0000_0000,
    ensures
        network_guard::allowed_source(IpAddr::V6(of_segment(first, rest)), vpn) <==> (first == 0
            && rest == 1) || 0xfe80 <= first <= 0xfebf || 0xfc00 <= first <= 0xfdff,
        of_segment(first, rest).loopback() <==> first == 0 && rest == 1,
        of_segment(first, rest).unicast_link_local() <==> 0xfe80 <= first <= 0xfebf,
        of_segment(first, rest).unique_local() <==> 0xfc00 <= first <= 0xfdff,
{
}

/// The guard lets in what it should, and not only refuses what it should not: a
/// request from a served source, for a host that is answered, is let in where
/// its method reads, where no page sent it, and where a page of that host did.
pub proof fn law_expected_requests_are_let_in(
    source: IpAddr,
    vpn: bool,
    configured: Seq<Seq<char>>,
    host: Seq<char>,
    method: Seq<char>,
    origin: Option<Seq<char>>,
    literal: Option<IpAddr>,
    local: Seq<IpAddr>,
)
    requires
        network_guard::allowed_source(source, vpn),
        network_guard::host_part(host) is Some,
        network_guard::host_allowed(
            network_guard::host_part(host)->0,
            configured,
            literal,
            local,
        ),
        method == "GET"@ || method == "HEAD"@ || origin is None || origin->0 == "http://"@ + host
            || origin->0 == "https://"@ + host,
    ensures
        network_guard::guard_decision(
            source,
            vpn,
            configured,
            Some(host),
            method,
            origin,
            literal,
            local,
        ) == GuardDecision::Allow,
{
}

/// What the guard refuses it refuses for a reason, and says which: a source that
/// is not served, a missing or broken host, a host that is not answered, and a
/// change that a page of another site asked for.
pub proof fn law_refusals_have_their_reason(
    source: IpAddr,
    vpn: bool,
    configured: Seq<Seq<char>>,
    host: Option<Seq<char>>,
    method: Seq<char>,
    origin: Option<Seq<char>>,
    literal: Option<IpAddr>,
    local: Seq<IpAddr>,
)
    ensures
        ({
            let decision = network_guard::guard_decision(
                source,
                vpn,
                configured,
                host,
                method,
                origin,
                literal,
                local,
            );
            let served = network_guard::allowed_source(source, vpn);
            let named = host is Some && network_guard::host_part(host->0) is Some;
            let answered = named && network_guard::host_allowed(
                network_guard::host_part(host->0)->0,
                configured,
                literal,
                local,
            );
            let foreign = method != "GET"@ && method != "HEAD"@ && origin is Some && origin->0
                != "http://"@ + host->0 && origin->0 != "https://"@ + host->0;
            &&& !served ==> decision == GuardDecision::Reject(403)
            &&& served && !named ==> decision == GuardDecision::Reject(400)
            &&& served && named && !answered ==> decision == GuardDecision::Reject(421)
            &&& served && answered && foreign ==> decision == GuardDecision::Reject(403)
            &&& served && answered && !foreign ==> decision == GuardDecision::Allow
        }),
{
}

/// The hosts that are answered: this machine by its fixed names, by those that
/// are configured, and by its own addresses. Other hosts are not.
pub proof fn law_hosts_that_are_answered(
    host: Seq<char>,
    configured: Seq<Seq<char>>,
    literal: Option<IpAddr>,
    local: Seq<IpAddr>,
)
    ensures
        ({
            let name = network_guard::comparable_host(host);
            let answered = network_guard::host_allowed(host, configured, literal, local);
            &&& name == "localhost"@ || name == "127.0.0.1"@ || name == "::1"@ ==> answered
            &&& configured.contains(name) ==> answered
            &&& literal is Some && local.contains(literal->0) ==> answered
            &&& name != "localhost"@ && name != "127.0.0.1"@ && name != "::1"@
                && !configured.contains(name) && (literal is None || !local.contains(literal->0))
                ==> !answered
        }),
{
}

/// Hosts are compared without their letters' case and without dots at their
/// end, and with nothing else left out.
pub proof fn law_comparable_hosts(host: Seq<char>)
    ensures
        network_guard::comparable_host(host.push('.')) == network_guard::comparable_host(host),
        host.len() > 0 && host.last() != '.' ==> network_guard::comparable_host(host).len()
            == host.len() && forall|i: int|
            0 <= i < host.len() ==> (#[trigger] network_guard::comparable_host(host)[i]) == if 'A'
                <= host[i] <= 'Z' {
                ((host[i] as u32) + 32) as char
            } else {
                host[i]
            },
        host.len() == 0 ==> network_guard::comparable_host(host).len() == 0,
{
    assert(host.push('.').drop_last() =~= host);
}

/// Text whose ends are not white space is not trimmed.
proof fn lemma_clean(s: Seq<char>)
    requires
        s.len() > 0,
        !text::white_space(s[0]),
        !text::white_space(s.last()),
    ensures
        text::trimmed(s) == s,
{
}

/// White space at the end makes no difference.
pub proof fn lemma_trim_push(s: Seq<char>, w: char)
    requires
        text::white_space(w),
    ensures
        text::trimmed(s.push(w)) == text::trimmed(s),
    decreases s.len(),
{
    let t = s.push(w);
    if s.len() == 0 {
        assert(t.skip(1) =~= Seq::<char>::empty());
        assert(s =~= Seq::<char>::empty());
        reveal_with_fuel(text::trim_start, 2);
    } else if text::white_space(s[0]) {
        assert(t.skip(1) =~= s.skip(1).push(w));
        lemma_trim_push(s.skip(1), w);
    } else {
        assert(t[0] == s[0]);
        assert(t.drop_last() =~= s);
    }
}

/// White space around the value of a `Host` header makes no difference.
pub proof fn law_white_space_around_a_host_makes_no_difference(value: Seq<char>, w: char)
    requires
        text::white_space(w),
    ensures
        network_guard::host_part(value.push(w)) == network_guard::host_part(value),
        network_guard::host_part(seq![w] + value) == network_guard::host_part(value),
{
    lemma_trim_push(value, w);
    let t = seq![w] + value;
    assert(t.skip(1) =~= value);
    assert(t[0] == w);
}

proof fn lemma_last_at(a: Seq<char>, b: Seq<char>, c: char)
    requires
        forall|i: int| 0 <= i < b.len() ==> #[trigger] b[i] != c,
    ensures
        text::last_at(a + seq![c] + b, c) == a.len(),
    decreases b.len(),
{
    let s = a + seq![c] + b;
    if b.len() == 0 {
        assert(s.last() == c);
    } else {
        assert(s.last() == b.last());
        assert(s.drop_last() =~= a + seq![c] + b.drop_last());
        lemma_last_at(a, b.drop_last(), c);
    }
}

proof fn lemma_nowhere(s: Seq<char>, c: char)
    requires
        !s.contains(c),
    ensures
        text::last_at(s, c) == -1,
    decreases s.len(),
{
    if s.len() > 0 {
        assert(s.contains(s[s.len() - 1]));
        assert forall|i: int| 0 <= i < s.drop_last().len() implies s.drop_last()[i] != c by {
            assert(s.contains(s[i]));
        }
        lemma_nowhere(s.drop_last(), c);
    }
}

/// The host of `name:port` is the name, with all colons but the last in it,
/// also where the one or the other is empty.
pub proof fn law_a_host_comes_before_its_port(name: Seq<char>, port: Seq<char>)
    requires
        name.len() > 0 ==> !text::white_space(name[0]) && name[0] != '[',
        port.len() > 0 ==> !text::white_space(port.last()),
        !port.contains(':'),
    ensures
        network_guard::host_part(name + seq![':'] + port) == Some(name),
{
    let value = name + seq![':'] + port;
    assert(value[0] == if name.len() > 0 {
        name[0]
    } else {
        ':'
    });
    assert(value.last() == if port.len() > 0 {
        port.last()
    } else {
        ':'
    });
    lemma_clean(value);
    assert forall|i: int| 0 <= i < port.len() implies #[trigger] port[i] != ':' by {
        assert(port.contains(port[i]));
    }
    lemma_last_at(name, port, ':');
    assert(value.take(name.len() as int) =~= name);
}

/// A host without a port is the whole value.
pub proof fn law_a_host_can_come_without_a_port(name: Seq<char>)
    requires
        name.len() > 0,
        !text::white_space(name[0]),
        !text::white_space(name.last()),
        name[0] != '[',
        !name.contains(':'),
    ensures
        network_guard::host_part(name) == Some(name),
{
    lemma_clean(name);
    lemma_nowhere(name, ':');
}

/// An IPv6 address stands in brackets, whatever follows them; brackets that are
/// not closed name no host.
pub proof fn law_an_ipv6_host_stands_in_brackets(inside: Seq<char>, rest: Seq<char>)
    requires
        !inside.contains(']'),
        rest.len() > 0 ==> !text::white_space(rest.last()),
        inside.len() > 0 ==> !text::white_space(inside.last()),
    ensures
        network_guard::host_part(seq!['['] + inside + seq![']'] + rest) == Some(inside),
        network_guard::host_part(seq!['['] + inside) is None,
{
    let value = seq!['['] + inside + seq![']'] + rest;
    let tail = value.skip(1);
    assert(value[0] == '[');
    assert(value.last() == if rest.len() > 0 {
        rest.last()
    } else {
        ']'
    });
    lemma_clean(value);
    assert(tail =~= inside + seq![']'] + rest);
    text::lemma_first_at(tail, ']');
    assert(tail[inside.len() as int] == ']');
    let at = text::first_at(tail, ']');
    if at < inside.len() {
        assert(tail[at] == inside[at]);
        assert(inside.contains(inside[at]));
    }
    assert(tail.take(inside.len() as int) =~= inside);
    let open = seq!['['] + inside;
    assert(open[0] == '[');
    if inside.len() > 0 {
        assert(open.last() == inside.last());
    }
    lemma_clean(open);
    assert(open.skip(1) =~= inside);
    text::lemma_first_at(inside, ']');
}

/// A browser in the local network that asks for a configured name is let in,
/// with or without a port, and so is one in a VPN where the setting says so.
pub proof fn law_a_browser_in_the_local_network_is_served(
    a: u8,
    b: u8,
    c: u8,
    d: u8,
    vpn: bool,
    configured: Seq<Seq<char>>,
    name: Seq<char>,
    port: Seq<char>,
    origin: Option<Seq<char>>,
    literal: Option<IpAddr>,
    local: Seq<IpAddr>,
)
    requires
        a == 10 || (a == 172 && 16 <= b <= 31) || (a == 192 && b == 168) || (vpn && a == 100 && 64
            <= b <= 127),
        name.len() > 0,
        !text::white_space(name[0]),
        name[0] != '[',
        port.len() > 0,
        !text::white_space(port.last()),
        !port.contains(':'),
        configured.contains(network_guard::comparable_host(name)),
    ensures
        network_guard::guard_decision(
            IpAddr::V4(of_octets(a, b, c, d)),
            vpn,
            configured,
            Some(name + seq![':'] + port),
            "GET"@,
            origin,
            literal,
            local,
        ) == GuardDecision::Allow,
{
    law_a_host_comes_before_its_port(name, port);
}

/// The literal that decides is the one that the host itself spells.
pub proof fn law_the_literal_is_that_of_the_host(host: Seq<char>, port: Seq<char>)
    requires
        host.len() > 0,
        !text::white_space(host[0]),
        host[0] != '[',
        port.len() > 0,
        !text::white_space(port.last()),
        !port.contains(':'),
    ensures
        network_guard::host_literal(Some(host + seq![':'] + port))
            == crate::addr::address_literal(network_guard::comparable_host(host)),
        network_guard::host_literal(None) is None,
{
    law_a_host_comes_before_its_port(host, port);
}

} // verus!
