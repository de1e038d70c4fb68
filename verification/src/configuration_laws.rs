//! How the gateway is configured, what it says of itself, and under which
//! addresses it can be reached, in terms of the settings that were given.
use vstd::prelude::*;
use vstd::utf8;

use crate::addr;
use crate::addr::{IpAddr, Ipv6Addr};
use crate::assets;
use crate::guard_laws;
use crate::headers;
use crate::network_guard;
use crate::numbers;
use crate::order;
use crate::settings;
use crate::settings::{StatusView, WebGatewayError, WebGatewaySettings, WebGatewayStatus};
use crate::supervisor;
use crate::text;

verus! {

/// Settings are accepted exactly where the port is not 0, sessions may be idle
/// for five minutes to a day, and the site's name has at most 128 bytes and no
/// control characters. The first thing that is wrong is named.
pub proof fn law_which_settings_are_valid(s: WebGatewaySettings)
    ensures
        ({
            let long = utf8::encode_utf8(s.site_name@).len() > 128;
            let broken = exists|i: int|
                0 <= i < s.site_name@.len() && text::control(#[trigger] s.site_name@[i]);
            &&& s.problem() is None <==> s.port != 0 && 5 <= s.session_idle_minutes <= 1440
                && !long && !broken
            &&& s.port == 0 ==> s.problem() == Some("web access port must be between 1 and 65535"@)
            &&& s.port != 0 && (s.session_idle_minutes < 5 || s.session_idle_minutes > 1440)
                ==> s.problem() == Some(
                "web session idle timeout must be between 5 minutes and 24 hours"@,
            )
            &&& s.port != 0 && 5 <= s.session_idle_minutes <= 1440 && (long || broken)
                ==> s.problem() == Some("web site name is invalid or exceeds 128 bytes"@)
        }),
{
}

/// The control characters of ASCII and of Latin-1, and the white space of ASCII.
pub proof fn law_control_characters_and_white_space(c: char)
    ensures
        text::control(c) <==> c <= '\u{1f}' || '\u{7f}' <= c <= '\u{9f}',
        c <= '\u{7f}' ==> (text::white_space(c) <==> c == ' ' || '\u{9}' <= c <= '\u{d}'),
        text::lower(c) == if 'A' <= c <= 'Z' {
            ((c as u32) + 32) as char
        } else {
            c
        },
{
}

/// Errors of the configuration say what they are about.
pub proof fn law_errors_say_what_they_are_about(error: WebGatewayError)
    ensures
        match error {
            WebGatewayError::InvalidSettings(reason) => {
                &&& error.code_text() == "web_gateway.invalid_settings"@
                &&& error.message_text() == "invalid web gateway settings: "@ + reason@
            },
            WebGatewayError::Bind { address, source } => {
                &&& error.code_text() == "web_gateway.address_unavailable"@
                &&& error.message_text() == "failed to bind web gateway to "@ + address@ + ": "@
                    + source@
            },
        },
{
}

/// A name that has its normal form already keeps it; dots at the end and white
/// space around a name make no difference to its normal form.
pub proof fn law_the_normal_form_of_a_name(name: Seq<char>, w: char)
    requires
        text::white_space(w),
    ensures
        settings::normal_hostname(seq![w] + name) == settings::normal_hostname(name),
        settings::normal_hostname(name.push(w)) == settings::normal_hostname(name),
        name.len() > 0 && !text::white_space(name[0]) && !text::white_space(name.last())
            && name.last() != '.' ==> {
            &&& settings::normal_hostname(name).len() == name.len()
            &&& settings::normal_hostname(name.push('.')) == settings::normal_hostname(name)
            &&& forall|i: int|
                0 <= i < name.len() ==> (#[trigger] settings::normal_hostname(name)[i]) == if 'A'
                    <= name[i] <= 'Z' {
                    ((name[i] as u32) + 32) as char
                } else {
                    name[i]
                }
        },
{
    guard_laws::lemma_trim_push(name, w);
    let t = seq![w] + name;
    assert(t.skip(1) =~= name);
    assert(t[0] == w);
    if name.len() > 0 && !text::white_space(name[0]) && !text::white_space(name.last()) && name.last()
        != '.' {
        assert(text::trimmed(name) == name);
        let dotted = name.push('.');
        assert(dotted[0] == name[0]);
        assert(text::trimmed(dotted) == dotted);
        assert(dotted.drop_last() =~= name);
        assert(text::strip_trailing(dotted, '.') == text::strip_trailing(name, '.'));
    }
}

/// Every name that was given is kept in its normal form, unless that is empty;
/// and nothing is kept that was not given.
pub proof fn law_given_names_are_kept(names: Seq<Seq<char>>, i: int, t: Seq<char>)
    requires
        0 <= i < names.len(),
    ensures
        settings::normal_hostname(names[i]).len() > 0 ==> settings::names_host(
            names,
            settings::normal_hostname(names[i]),
        ),
        !settings::names_host(names, Seq::empty()),
        settings::names_host(names, t) ==> exists|k: int|
            0 <= k < names.len() && settings::normal_hostname(#[trigger] names[k]) == t,
{
}

/// Settings are applied as they were given, but for the form of the names.
pub proof fn law_settings_are_applied_as_given(
    given: WebGatewaySettings,
    accepted: WebGatewaySettings,
    i: int,
)
    requires
        supervisor::accepts(given, accepted),
        0 <= i < given.allowed_hostnames@.len(),
    ensures
        accepted.enabled == given.enabled,
        accepted.port == given.port,
        accepted.bind_mode == given.bind_mode,
        accepted.site_name@ == given.site_name@,
        accepted.session_idle_minutes == given.session_idle_minutes,
        accepted.allow_vpn_private == given.allow_vpn_private,
        accepted.problem() == given.problem(),
        settings::normal_hostname(given.allowed_hostnames@[i]@).len() > 0 ==> text::texts(
            accepted.allowed_hostnames@,
        ).contains(settings::normal_hostname(given.allowed_hostnames@[i]@)),
        order::increasing(text::texts(accepted.allowed_hostnames@)),
{
    let names = text::texts(given.allowed_hostnames@);
    assert(names[i] == given.allowed_hostnames@[i]@);
    let t = settings::normal_hostname(names[i]);
    if t.len() > 0 {
        assert(settings::names_host(names, t));
        assert(text::texts(accepted.allowed_hostnames@).contains(t));
    }
}

/// What the gateway says in each state, field by field.
pub proof fn law_what_the_gateway_says(
    s: WebGatewaySettings,
    addresses: Seq<Seq<char>>,
    error: Seq<char>,
    status: StatusView,
    count: usize,
    ended_by: Option<Seq<char>>,
)
    ensures
        ({
            let stopped = supervisor::stopped_status(s);
            &&& !stopped.enabled && !stopped.running
            &&& stopped.port == s.port && stopped.site_name == s.site_name@
            &&& stopped.addresses.len() == 0 && stopped.session_count == 0
            &&& stopped.last_error is None
        }),
        ({
            let failed = supervisor::failed_status(s, error);
            &&& failed.enabled && !failed.running
            &&& failed.port == s.port && failed.site_name == s.site_name@
            &&& failed.addresses.len() == 0 && failed.session_count == 0
            &&& failed.last_error == Some(
                "failed to start web access: TCP port "@ + numbers::decimal(s.port as nat)
                    + " is unavailable ("@ + error + ")"@,
            )
        }),
        ({
            let running = supervisor::running_status(s, addresses);
            &&& running.enabled && running.running
            &&& running.port == s.port && running.site_name == s.site_name@
            &&& running.addresses == addresses && running.session_count == 0
            &&& running.last_error is None
        }),
        ({
            let ended = supervisor::ended_status(status, count, ended_by);
            &&& ended.enabled == status.enabled && !ended.running
            &&& ended.port == status.port && ended.site_name == status.site_name
            &&& ended.addresses == status.addresses && ended.session_count == count
            &&& ended_by is Some ==> ended.last_error == ended_by
            &&& ended_by is None ==> ended.last_error == status.last_error
        }),
{
}

/// The view of a status is the status.
pub proof fn law_a_status_is_viewed_as_it_is(status: WebGatewayStatus)
    ensures
        status@.enabled == status.enabled,
        status@.running == status.running,
        status@.port == status.port,
        status@.site_name == status.site_name@,
        status@.addresses.len() == status.addresses@.len(),
        forall|i: int|
            0 <= i < status.addresses@.len() ==> #[trigger] status@.addresses[i]
                == status.addresses@[i]@,
        status@.session_count == status.session_count,
        status@.last_error is Some <==> status.last_error is Some,
        status.last_error is Some ==> status@.last_error->0 == status.last_error->0@,
{
}

/// The addresses of IPv4 that are offered, by their octets: those of the private
/// networks and of the link.
pub proof fn law_offered_addresses_by_their_octets(
    a: u8,
    b: u8,
    c: u8,
    d: u8,
    include_ipv6: bool,
)
    ensures
        supervisor::offered(IpAddr::V4(guard_laws::of_octets(a, b, c, d)), include_ipv6) <==> a
            == 10 || (a == 172 && 16 <= b <= 31) || (a == 192 && b == 168) || (a == 169 && b
            == 254),
{
}

/// The addresses of IPv6 that are offered, by their first segment: those of the
/// local networks, where the gateway listens on IPv6.
pub proof fn law_offered_addresses_by_their_segment(first: u16, rest: u128, include_ipv6: bool)
    requires
        rest < 0x1_0000_0000_0000_0000_0000_0000_0000,
    ensures
        supervisor::offered(IpAddr::V6(guard_laws::of_segment(first, rest)), include_ipv6)
            <==> include_ipv6 && 0xfc00 <= first <= 0xfdff,
{
}

/// The URL of an address of IPv4 spells its octets and the port.
pub proof fn law_the_url_of_an_ipv4_address(a: u8, b: u8, c: u8, d: u8, port: u16)
    ensures
        supervisor::address_url(IpAddr::V4(guard_laws::of_octets(a, b, c, d)), port) == "http://"@
            + (numbers::decimal(a as nat) + "."@ + numbers::decimal(b as nat) + "."@
            + numbers::decimal(c as nat) + "."@ + numbers::decimal(d as nat)) + ":"@
            + numbers::decimal(port as nat),
{
    lemma_octets(a as nat, b as nat, c as nat, d as nat);
}

proof fn lemma_octets(a: nat, b: nat, c: nat, d: nat)
    requires
        a < 256,
        b < 256,
        c < 256,
        d < 256,
    ensures
        ({
            let n = a * 0x100_0000 + b * 0x1_0000 + c * 0x100 + d;
            &&& n <= u32::MAX
            &&& n / 0x100_0000 == a
            &&& n / 0x1_0000 % 0x100 == b
            &&& n / 0x100 % 0x100 == c
            &&& n % 0x100 == d
        }),
{
    let n = a * 0x100_0000 + b * 0x1_0000 + c * 0x100 + d;
    assert(n / 0x100 == a * 0x1_0000 + b * 0x100 + c);
    assert(n / 0x1_0000 == a * 0x100 + b);
}

/// The URL of an address of IPv6 spells it in brackets, and that of a name
/// spells the name.
pub proof fn law_the_url_of_an_ipv6_address_and_of_a_name(
    address: Ipv6Addr,
    name: Seq<char>,
    port: u16,
)
    ensures
        supervisor::address_url(IpAddr::V6(address), port) == "http://"@ + ("["@
            + addr::ipv6_text(address.bits) + "]"@) + ":"@ + numbers::decimal(port as nat),
        supervisor::host_url(name, port) == "http://"@ + name + ":"@ + numbers::decimal(
            port as nat,
        ),
{
}

/// Every offered address of the machine has its URL among the gateway's, and so
/// has every name that ends in `.local`; no other address or name has.
pub proof fn law_which_urls_are_offered(
    local: Seq<IpAddr>,
    names: Seq<Seq<char>>,
    i: int,
    k: int,
    port: u16,
    include_ipv6: bool,
    url: Seq<char>,
)
    requires
        0 <= i < local.len(),
        0 <= k < names.len(),
    ensures
        supervisor::offered(local[i], include_ipv6) ==> supervisor::lan_url(
            supervisor::address_url(local[i], port),
            local,
            port,
            include_ipv6,
        ),
        supervisor::lan_url(url, local, port, include_ipv6) ==> exists|j: int|
            0 <= j < local.len() && supervisor::offered(#[trigger] local[j], include_ipv6)
                && supervisor::address_url(local[j], port) == url,
        text::has_suffix(names[k], ".local"@) ==> supervisor::name_url(
            "http://"@ + names[k] + ":"@ + numbers::decimal(port as nat),
            names,
            port,
        ),
        supervisor::name_url(url, names, port) ==> exists|j: int|
            0 <= j < names.len() && text::has_suffix(#[trigger] names[j], ".local"@) && url
                == "http://"@ + names[j] + ":"@ + numbers::decimal(port as nat),
{
}

/// A path that is none of the application's pages asks for the asset of its
/// name, with the slashes before it left out.
pub proof fn law_other_paths_ask_for_their_asset(key: Seq<char>)
    requires
        key.len() > 0,
        key[0] != '/',
        key != "files"@,
        !text::has_prefix(key, "s/"@),
    ensures
        assets::asset_key_of(key) == key,
        assets::asset_key_of(seq!['/'] + key) == key,
        assets::asset_key_of(seq!['/', '/'] + key) == key,
{
    let one = seq!['/'] + key;
    let two = seq!['/', '/'] + key;
    assert(one.skip(1) =~= key);
    assert(two.skip(1) =~= one);
    assert(one[0] == '/' && two[0] == '/');
    assert(text::strip_leading(key, '/') == key);
    assert(text::strip_leading(one, '/') == text::strip_leading(key, '/'));
    assert(text::strip_leading(two, '/') == text::strip_leading(one, '/'));
}

/// An asset has the media type of its name and says how long it may be kept: the
/// start page not at all, the others for a year.
pub proof fn law_assets_say_what_they_are(
    values: Map<Seq<char>, Seq<Seq<u8>>>,
    key: Seq<char>,
    guess: Option<Seq<char>>,
    name: Seq<char>,
)
    ensures
        ({
            let sent = assets::with_asset_headers(values, key, guess);
            &&& guess is Some && headers::header_safe(guess->0) ==> sent["content-type"@] == seq![
                utf8::encode_utf8(guess->0),
            ]
            &&& guess is None || !headers::header_safe(guess->0) ==> sent["content-type"@] == seq![
                utf8::encode_utf8("application/octet-stream"@),
            ]
            &&& key == "web-files.html"@ ==> sent["cache-control"@] == seq![
                utf8::encode_utf8("no-store"@),
            ]
            &&& key != "web-files.html"@ ==> sent["cache-control"@] == seq![
                utf8::encode_utf8("public, max-age=31536000, immutable"@),
            ]
            &&& name != "content-type"@ && name != "cache-control"@ ==> sent[name] == values[name]
                && sent.contains_key(name) == values.contains_key(name)
        }),
{
    reveal_strlit("content-type");
    reveal_strlit("cache-control");
    assert("content-type"@.len() == 12 && "cache-control"@.len() == 13);
}

/// The start page is the application's.
pub proof fn law_the_start_page()
    ensures
        assets::start_page() == "web-files.html"@,
        assets::asset_key_of("files"@) == "web-files.html"@,
{
    reveal_strlit("files");
    assert(text::strip_leading("files"@, '/') == "files"@);
}

/// What a name of the local network is offered under is a host that the guard
/// answers.
pub proof fn law_offered_names_are_answered(
    names: Seq<Seq<char>>,
    k: int,
    literal: Option<IpAddr>,
    local: Seq<IpAddr>,
)
    requires
        0 <= k < names.len(),
        network_guard::comparable_host(names[k]) == names[k],
    ensures
        network_guard::host_allowed(names[k], names, literal, local),
{
    assert(names.contains(names[k]));
}

/// A slash before a path makes no difference to what it asks for, and every path
/// below a share's page asks for the start page.
pub proof fn law_slashes_before_a_path_make_no_difference(path: Seq<char>)
    ensures
        assets::asset_key_of(seq!['/'] + path) == assets::asset_key_of(path),
        text::has_prefix(path, "s/"@) ==> assets::asset_key_of(path) == "web-files.html"@,
{
    reveal_strlit("s/");
    assert((seq!['/'] + path).skip(1) =~= path);
    if text::has_prefix(path, "s/"@) {
        assert(path.take(2)[0] == 's');
        assert(path[0] == 's');
    }
}

} // verus!
