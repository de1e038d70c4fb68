//! The gateway as a whole: how it is configured, started and stopped, and what
//! it says of itself.
//!
//! Applying settings takes turns with the network: the running server is
//! stopped, the sessions end, the port is bound, and the outcome is noted.
use vstd::prelude::*;

use crate::addr;
use crate::addr::{write_ipv6, IpAddr};
use crate::network_guard;
use crate::network_guard::{is_allowed_ipv4, is_allowed_ipv6};
use crate::numbers;
use crate::numbers::push_decimal;
use crate::order;
use crate::order::sorted_distinct;
use crate::session;
use crate::session::{SessionStore, SessionView};
use crate::settings;
use crate::settings::{
    normalize_hostnames, StatusView, WebGatewayError, WebGatewaySettings, WebGatewayStatus,
};
use crate::text;
use crate::text::{ends_in, owned};

verus! {

/// A browser in the local network can reach the gateway under the address.
pub open spec fn offered(ip: IpAddr, include_ipv6: bool) -> bool {
    match ip {
        IpAddr::V4(address) => network_guard::allowed_ipv4(address, false) && !address.loopback(),
        IpAddr::V6(address) => include_ipv6 && network_guard::allowed_ipv6(address)
            && !address.loopback() && !address.unicast_link_local(),
    }
}

/// The URL of a host.
pub open spec fn host_url(host: Seq<char>, port: u16) -> Seq<char> {
    "http://"@ + host + ":"@ + numbers::decimal(port as nat)
}

/// The URL of an address.
pub open spec fn address_url(ip: IpAddr, port: u16) -> Seq<char> {
    match ip {
        IpAddr::V4(address) => host_url(address.text(), port),
        IpAddr::V6(address) => host_url("["@ + addr::ipv6_text(address.bits) + "]"@, port),
    }
}

/// The URL is that of an address that is offered.
pub open spec fn lan_url(
    url: Seq<char>,
    local: Seq<IpAddr>,
    port: u16,
    include_ipv6: bool,
) -> bool {
    exists|i: int|
        0 <= i < local.len() && offered(#[trigger] local[i], include_ipv6) && address_url(
            local[i],
            port,
        ) == url
}

/// The URL is that of a host name that the local network resolves.
pub open spec fn name_url(url: Seq<char>, hostnames: Seq<Seq<char>>, port: u16) -> bool {
    exists|i: int|
        0 <= i < hostnames.len() && text::has_suffix(#[trigger] hostnames[i], ".local"@)
            && host_url(hostnames[i], port) == url
}

fn url_of(host: &str, port: u16) -> (result: String)
    ensures
        result@ == host_url(host@, port),
{
    let mut out = owned("http://");
    out.append(host);
    out.append(":");
    push_decimal(&mut out, port as u64);
    out
}

/// The URL of an address.
pub fn url_at(ip: IpAddr, port: u16) -> (result: String)
    ensures
        result@ == address_url(ip, port),
{
    match ip {
        IpAddr::V4(address) => {
            let mut host = String::new();
            address.push_text(&mut host);
            assert(host@ =~= address.text());
            url_of(host.as_str(), port)
        },
        IpAddr::V6(address) => {
            let text = write_ipv6(address);
            let mut host = owned("[");
            host.append(text.as_str());
            host.append("]");
            url_of(host.as_str(), port)
        },
    }
}

fn is_offered(ip: IpAddr, include_ipv6: bool) -> (result: bool)
    ensures
        result == offered(ip, include_ipv6),
{
    match ip {
        IpAddr::V4(address) => is_allowed_ipv4(address, false) && !address.is_loopback(),
        IpAddr::V6(address) => include_ipv6 && is_allowed_ipv6(address) && !address.is_loopback()
            && !address.is_unicast_link_local(),
    }
}

/// `url` stands in the list that has one more member than `had`.
proof fn lemma_pushed(had: Seq<String>, item: String, url: Seq<char>)
    ensures
        text::texts(had.push(item)).contains(url) <==> text::texts(had).contains(url) || item@
            == url,
{
    let list = text::texts(had.push(item));
    assert(list =~= text::texts(had).push(item@));
    if text::texts(had).contains(url) {
        let p = choose|p: int| 0 <= p < text::texts(had).len() && text::texts(had)[p] == url;
        assert(list[p] == url);
    }
    if item@ == url {
        assert(list.last() == url);
    }
    if list.contains(url) {
        let p = choose|p: int| 0 <= p < list.len() && list[p] == url;
        if p < had.len() {
            assert(text::texts(had)[p] == url);
        }
    }
}

proof fn lemma_one_more_address(
    url: Seq<char>,
    local: Seq<IpAddr>,
    i: int,
    port: u16,
    include_ipv6: bool,
)
    requires
        0 <= i < local.len(),
    ensures
        lan_url(url, local.take(i + 1), port, include_ipv6) <==> lan_url(
            url,
            local.take(i),
            port,
            include_ipv6,
        ) || (offered(local[i], include_ipv6) && address_url(local[i], port) == url),
{
    let less = local.take(i);
    let more = local.take(i + 1);
    if lan_url(url, less, port, include_ipv6) {
        let k = choose|k: int|
            0 <= k < less.len() && offered(#[trigger] less[k], include_ipv6) && address_url(
                less[k],
                port,
            ) == url;
        assert(more[k] == less[k]);
    }
    if offered(local[i], include_ipv6) && address_url(local[i], port) == url {
        assert(more[i] == local[i]);
    }
    if lan_url(url, more, port, include_ipv6) {
        let k = choose|k: int|
            0 <= k < more.len() && offered(#[trigger] more[k], include_ipv6) && address_url(
                more[k],
                port,
            ) == url;
        if k < i {
            assert(less[k] == more[k]);
        }
    }
}

proof fn lemma_one_more_name(url: Seq<char>, hostnames: Seq<Seq<char>>, i: int, port: u16)
    requires
        0 <= i < hostnames.len(),
    ensures
        name_url(url, hostnames.take(i + 1), port) <==> name_url(url, hostnames.take(i), port) || (
        text::has_suffix(hostnames[i], ".local"@) && host_url(hostnames[i], port) == url),
{
    let less = hostnames.take(i);
    let more = hostnames.take(i + 1);
    if name_url(url, less, port) {
        let k = choose|k: int|
            0 <= k < less.len() && text::has_suffix(#[trigger] less[k], ".local"@) && host_url(
                less[k],
                port,
            ) == url;
        assert(more[k] == less[k]);
    }
    if text::has_suffix(hostnames[i], ".local"@) && host_url(hostnames[i], port) == url {
        assert(more[i] == hostnames[i]);
    }
    if name_url(url, more, port) {
        let k = choose|k: int|
            0 <= k < more.len() && text::has_suffix(#[trigger] more[k], ".local"@) && host_url(
                more[k],
                port,
            ) == url;
        if k < i {
            assert(less[k] == more[k]);
        }
    }
}

/// The URLs of the addresses of this machine, sorted, without repeats.
pub fn lan_addresses(port: u16, include_ipv6: bool, local: &Vec<IpAddr>) -> (result: Vec<
    String,
>)
    ensures
        order::increasing(text::texts(result@)),
        forall|url: Seq<char>| #[trigger]
            text::texts(result@).contains(url) <==> lan_url(url, local@, port, include_ipv6),
{
    let mut urls: Vec<String> = Vec::new();
    let mut i: usize = 0;
    while i < local.len()
        invariant
            i <= local@.len(),
            forall|url: Seq<char>| #[trigger]
                text::texts(urls@).contains(url) <==> lan_url(
                    url,
                    local@.take(i as int),
                    port,
                    include_ipv6,
                ),
        decreases local@.len() - i,
    {
        let ip = local[i];
        let ghost had = urls@;
        if is_offered(ip, include_ipv6) {
            let url = url_at(ip, port);
            urls.push(url);
        }
        proof {
            assert forall|url: Seq<char>| #[trigger]
                text::texts(urls@).contains(url) <==> lan_url(
                    url,
                    local@.take(i + 1),
                    port,
                    include_ipv6,
                ) by {
                assert(text::texts(had).contains(url) <==> lan_url(
                    url,
                    local@.take(i as int),
                    port,
                    include_ipv6,
                ));
                lemma_one_more_address(url, local@, i as int, port, include_ipv6);
                if offered(ip, include_ipv6) {
                    lemma_pushed(had, urls@.last(), url);
                    assert(urls@ =~= had.push(urls@.last()));
                }
            }
        }
        i += 1;
    }
    assert(local@.take(i as int) =~= local@);
    let sorted = sorted_distinct(&urls);
    assert forall|url: Seq<char>| #[trigger] text::texts(sorted@).contains(url) <==> lan_url(
        url,
        local@,
        port,
        include_ipv6,
    ) by {
        assert(text::texts(urls@).contains(url) <==> lan_url(url, local@, port, include_ipv6));
    }
    sorted
}

/// The URLs under which the gateway can be reached: those of the addresses and
/// those of the local host names, sorted, without repeats.
pub fn gateway_addresses(
    settings: &WebGatewaySettings,
    include_ipv6: bool,
    local: &Vec<IpAddr>,
) -> (result: Vec<String>)
    ensures
        order::increasing(text::texts(result@)),
        forall|url: Seq<char>| #[trigger]
            text::texts(result@).contains(url) <==> lan_url(
                url,
                local@,
                settings.port,
                include_ipv6,
            ) || name_url(url, text::texts(settings.allowed_hostnames@), settings.port),
{
    let port: u16 = settings.port;
    let mut urls = lan_addresses(port, include_ipv6, local);
    let ghost names = text::texts(settings.allowed_hostnames@);
    let mut i: usize = 0;
    while i < settings.allowed_hostnames.len()
        invariant
            i <= names.len(),
            names == text::texts(settings.allowed_hostnames@),
            port == settings.port,
            forall|url: Seq<char>| #[trigger]
                text::texts(urls@).contains(url) <==> lan_url(url, local@, port, include_ipv6)
                    || name_url(url, names.take(i as int), port),
        decreases names.len() - i,
    {
        let hostname = settings.allowed_hostnames[i].as_str();
        let ghost had = urls@;
        assert(names[i as int] == hostname@);
        if ends_in(hostname, ".local") {
            urls.push(url_of(hostname, port));
        }
        proof {
            assert forall|url: Seq<char>| #[trigger]
                text::texts(urls@).contains(url) <==> lan_url(url, local@, port, include_ipv6)
                    || name_url(url, names.take(i + 1), port) by {
                assert(text::texts(had).contains(url) <==> lan_url(
                    url,
                    local@,
                    port,
                    include_ipv6,
                ) || name_url(url, names.take(i as int), port));
                lemma_one_more_name(url, names, i as int, port);
                if text::has_suffix(hostname@, ".local"@) {
                    lemma_pushed(had, urls@.last(), url);
                    assert(urls@ =~= had.push(urls@.last()));
                }
            }
        }
        i += 1;
    }
    assert(names.take(i as int) =~= names);
    let sorted = sorted_distinct(&urls);
    assert forall|url: Seq<char>| #[trigger] text::texts(sorted@).contains(url) <==> lan_url(
        url,
        local@,
        port,
        include_ipv6,
    ) || name_url(url, names, port) by {
        assert(text::texts(urls@).contains(url) <==> lan_url(url, local@, port, include_ipv6)
            || name_url(url, names, port));
    }
    sorted
}

/// What a switched-off gateway says.
pub open spec fn stopped_status(settings: WebGatewaySettings) -> StatusView {
    StatusView {
        enabled: false,
        running: false,
        port: settings.port,
        site_name: settings.site_name@,
        addresses: Seq::empty(),
        session_count: 0,
        last_error: None,
    }
}

/// What a person is told when the port is taken.
pub open spec fn port_taken(port: u16, error: Seq<char>) -> Seq<char> {
    "failed to start web access: TCP port "@ + numbers::decimal(port as nat)
        + " is unavailable ("@ + error + ")"@
}

/// What a gateway says that could not be started.
pub open spec fn failed_status(settings: WebGatewaySettings, error: Seq<char>) -> StatusView {
    StatusView {
        enabled: true,
        running: false,
        port: settings.port,
        site_name: settings.site_name@,
        addresses: Seq::empty(),
        session_count: 0,
        last_error: Some(port_taken(settings.port, error)),
    }
}

/// What a running gateway says.
pub open spec fn running_status(
    settings: WebGatewaySettings,
    addresses: Seq<Seq<char>>,
) -> StatusView {
    StatusView {
        enabled: true,
        running: true,
        port: settings.port,
        site_name: settings.site_name@,
        addresses,
        session_count: 0,
        last_error: None,
    }
}

/// What a gateway says whose server has ended, with the error that ended it.
pub open spec fn ended_status(
    status: StatusView,
    session_count: usize,
    error: Option<Seq<char>>,
) -> StatusView {
    StatusView {
        running: false,
        session_count,
        last_error: if error is Some {
            error
        } else {
            status.last_error
        },
        ..status
    }
}

/// The settings that are applied: those that were given, with the host names
/// in their normal form.
pub open spec fn accepts(given: WebGatewaySettings, accepted: WebGatewaySettings) -> bool {
    &&& accepted.enabled == given.enabled
    &&& accepted.port == given.port
    &&& accepted.bind_mode == given.bind_mode
    &&& accepted.site_name@ == given.site_name@
    &&& accepted.session_idle_minutes == given.session_idle_minutes
    &&& accepted.allow_vpn_private == given.allow_vpn_private
    &&& order::increasing(text::texts(accepted.allowed_hostnames@))
    &&& forall|t: Seq<char>| #[trigger]
        text::texts(accepted.allowed_hostnames@).contains(t) <==> settings::names_host(
            text::texts(given.allowed_hostnames@),
            t,
        )
}

/// The gateway: its sessions, and what it says of itself.
pub struct WebGatewaySupervisor {
    pub sessions: SessionStore,
    pub last_status: WebGatewayStatus,
    pub app_version: String,
}

fn copied(texts: &Vec<String>) -> (result: Vec<String>)
    ensures
        text::texts(result@) == text::texts(texts@),
{
    let mut out: Vec<String> = Vec::new();
    let mut i: usize = 0;
    while i < texts.len()
        invariant
            i <= texts@.len(),
            out@.len() == i,
            forall|j: int| 0 <= j < i ==> (#[trigger] out@[j])@ == texts@[j]@,
        decreases texts@.len() - i,
    {
        out.push(owned(texts[i].as_str()));
        i += 1;
    }
    assert(text::texts(out@) =~= text::texts(texts@));
    out
}

fn copied_status(status: &WebGatewayStatus) -> (result: WebGatewayStatus)
    ensures
        result@ == status@,
{
    WebGatewayStatus {
        enabled: status.enabled,
        running: status.running,
        port: status.port,
        site_name: owned(status.site_name.as_str()),
        addresses: copied(&status.addresses),
        session_count: status.session_count,
        last_error: match &status.last_error {
            Some(error) => Some(owned(error.as_str())),
            None => None,
        },
    }
}

impl WebGatewaySupervisor {
    pub open spec fn wf(&self) -> bool {
        self.sessions.wf()
    }

    pub fn new(app_version: &str) -> (result: Self)
        ensures
            result.wf(),
            result.sessions@ == Map::<Seq<char>, SessionView>::empty(),
            result.app_version@ == app_version@,
            !result.last_status@.enabled,
            !result.last_status@.running,
            result.last_status@.port == settings::DEFAULT_WEB_GATEWAY_PORT,
            result.last_status@.site_name == Seq::<char>::empty(),
            result.last_status@.addresses == Seq::<Seq<char>>::empty(),
            result.last_status@.session_count == 0,
            result.last_status@.last_error is None,
    {
        let last_status = WebGatewayStatus::default();
        assert(last_status@.addresses =~= Seq::<Seq<char>>::empty());
        WebGatewaySupervisor {
            sessions: SessionStore::default(),
            last_status,
            app_version: owned(app_version),
        }
    }

    /// Begins a configuration: gives the settings that are to be applied once
    /// the running server has stopped. Settings with a problem are refused, and
    /// nothing changes.
    pub fn reconfigure(&self, settings: WebGatewaySettings) -> (result: Result<
        WebGatewaySettings,
        WebGatewayError,
    >)
        ensures
            match result {
                Ok(accepted) => settings.problem() is None && accepts(settings, accepted)
                    && accepted.problem() is None,
                Err(WebGatewayError::InvalidSettings(reason)) => settings.problem() == Some(
                    reason@,
                ),
                Err(WebGatewayError::Bind { .. }) => false,
            },
    {
        if let Err(error) = settings.validate() {
            return Err(error);
        }
        let mut accepted = settings;
        normalize_hostnames(&mut accepted.allowed_hostnames);
        Ok(accepted)
    }

    /// Goes on once no server runs: every session ends. A gateway that is
    /// switched off is then configured, and what it says is returned; else the
    /// port is to be bound.
    pub fn server_stopped(&mut self, settings: &WebGatewaySettings) -> (result: Option<
        WebGatewayStatus,
    >)
        requires
            old(self).wf(),
        ensures
            final(self).wf(),
            final(self).sessions@ == Map::<Seq<char>, SessionView>::empty(),
            final(self).app_version == old(self).app_version,
            match result {
                Some(status) => {
                    &&& !settings.enabled
                    &&& status@ == stopped_status(*settings)
                    &&& final(self).last_status@ == status@
                },
                None => settings.enabled && final(self).last_status@ == old(self).last_status@,
            },
    {
        let _ = self.sessions.revoke_all();
        if settings.enabled {
            return None;
        }
        let status = WebGatewayStatus {
            enabled: false,
            running: false,
            port: settings.port,
            site_name: owned(settings.site_name.as_str()),
            addresses: Vec::new(),
            session_count: 0,
            last_error: None,
        };
        assert(status@.addresses =~= Seq::<Seq<char>>::empty());
        self.last_status = copied_status(&status);
        Some(status)
    }

    /// Ends a configuration whose port could not be bound.
    pub fn bind_failed(&mut self, settings: &WebGatewaySettings, error: &str) -> (result:
        WebGatewayError)
        requires
            old(self).wf(),
        ensures
            final(self).wf(),
            final(self).sessions@ == old(self).sessions@,
            final(self).app_version == old(self).app_version,
            final(self).last_status@ == failed_status(*settings, error@),
            match result {
                WebGatewayError::Bind { address, source } => address@ == "0.0.0.0:"@
                    + numbers::decimal(settings.port as nat) && source@ == error@,
                WebGatewayError::InvalidSettings(_) => false,
            },
    {
        let mut message = owned("failed to start web access: TCP port ");
        push_decimal(&mut message, settings.port as u64);
        message.append(" is unavailable (");
        message.append(error);
        message.append(")");
        self.last_status = WebGatewayStatus {
            enabled: true,
            running: false,
            port: settings.port,
            site_name: owned(settings.site_name.as_str()),
            addresses: Vec::new(),
            session_count: 0,
            last_error: Some(message),
        };
        assert(self.last_status@.addresses =~= Seq::<Seq<char>>::empty());
        let mut address = owned("0.0.0.0:");
        push_decimal(&mut address, settings.port as u64);
        WebGatewayError::Bind { address, source: owned(error) }
    }

    /// Ends a configuration whose port was bound.
    pub fn server_started(
        &mut self,
        settings: &WebGatewaySettings,
        include_ipv6: bool,
        local: &Vec<IpAddr>,
    ) -> (result: WebGatewayStatus)
        requires
            old(self).wf(),
        ensures
            final(self).wf(),
            final(self).sessions@ == old(self).sessions@,
            final(self).app_version == old(self).app_version,
            final(self).last_status@ == result@,
            result@ == running_status(*settings, result@.addresses),
            order::increasing(result@.addresses),
            forall|url: Seq<char>| #[trigger]
                result@.addresses.contains(url) <==> lan_url(
                    url,
                    local@,
                    settings.port,
                    include_ipv6,
                ) || name_url(url, text::texts(settings.allowed_hostnames@), settings.port),
    {
        let status = WebGatewayStatus {
            enabled: true,
            running: true,
            port: settings.port,
            site_name: owned(settings.site_name.as_str()),
            addresses: gateway_addresses(settings, include_ipv6, local),
            session_count: 0,
            last_error: None,
        };
        self.last_status = copied_status(&status);
        status
    }

    /// Notes that the server has ended, with the error that ended it.
    pub fn server_ended(&mut self, error: Option<&str>) -> (result: WebGatewayStatus)
        requires
            old(self).wf(),
        ensures
            final(self).wf(),
            final(self).sessions@ == old(self).sessions@,
            final(self).app_version == old(self).app_version,
            final(self).last_status@ == result@,
            result@.session_count == old(self).sessions@.len(),
            result@ == ended_status(
                old(self).last_status@,
                result@.session_count,
                session::text_of(error),
            ),
    {
        self.last_status.running = false;
        self.last_status.session_count = self.sessions.len();
        if let Some(error) = error {
            self.last_status.last_error = Some(owned(error));
        }
        copied_status(&self.last_status)
    }

    /// What the gateway says of itself, with the number of sessions at this
    /// moment.
    pub fn status(&self) -> (result: WebGatewayStatus)
        requires
            self.wf(),
        ensures
            result@.session_count == self.sessions@.len(),
            result@ == (StatusView {
                session_count: result@.session_count,
                ..self.last_status@
            }),
    {
        let mut status = copied_status(&self.last_status);
        status.session_count = self.sessions.len();
        status
    }

    /// Locks a share in every session, or ends every session; returns the
    /// number of sessions that this touched.
    pub fn revoke_sessions(&mut self, share_id: Option<&str>) -> (result: usize)
        requires
            old(self).wf(),
        ensures
            final(self).wf(),
            final(self).last_status == old(self).last_status,
            final(self).app_version == old(self).app_version,
            match share_id {
                Some(share_id) => {
                    &&& final(self).sessions@ == session::after_revoke(
                        old(self).sessions@,
                        share_id@,
                    )
                    &&& result == session::holders_of(old(self).sessions@, share_id@).len()
                },
                None => {
                    &&& final(self).sessions@ == Map::<Seq<char>, SessionView>::empty()
                    &&& result == old(self).sessions@.len()
                },
            },
    {
        match share_id {
            Some(share_id) => self.sessions.revoke_share(share_id),
            None => self.sessions.revoke_all(),
        }
    }

    /// Whether the program has to stay in the background for the gateway.
    pub fn requires_background(&self) -> (result: bool)
        ensures
            result == self.last_status@.running,
    {
        self.last_status.running
    }
}

/// No address outside the local network is offered to browsers, nor one that
/// only this machine can reach.
pub proof fn law_offered_addresses_are_local(ip: IpAddr, include_ipv6: bool)
    requires
        offered(ip, include_ipv6),
    ensures
        network_guard::allowed_source(ip, false),
        match ip {
            IpAddr::V4(address) => !address.loopback(),
            IpAddr::V6(address) => include_ipv6 && !address.loopback(),
        },
{
}

/// Every configured host name is served: a request for it, or for it in other
/// letters or with dots at its end, asks for a host that the guard lets through.
pub proof fn law_configured_names_are_served(
    given: WebGatewaySettings,
    accepted: WebGatewaySettings,
    i: int,
    host: Seq<char>,
    literal: Option<IpAddr>,
    local: Seq<IpAddr>,
)
    requires
        accepts(given, accepted),
        0 <= i < accepted.allowed_hostnames@.len(),
        host == accepted.allowed_hostnames@[i]@ || network_guard::comparable_host(host)
            == accepted.allowed_hostnames@[i]@,
    ensures
        network_guard::host_allowed(
            host,
            text::texts(accepted.allowed_hostnames@),
            literal,
            local,
        ),
{
    let names = text::texts(accepted.allowed_hostnames@);
    let name = accepted.allowed_hostnames@[i]@;
    assert(names[i] == name);
    assert(names.contains(name));
    let all = text::texts(given.allowed_hostnames@);
    assert(settings::names_host(all, name));
    let k = choose|k: int| 0 <= k < all.len() && settings::normal_hostname(#[trigger] all[k]) == name;
    let stripped = text::strip_trailing(text::trimmed(all[k]), '.');
    text::lemma_strip_trailing(text::trimmed(all[k]), '.');
    assert(name == text::lowered(stripped));
    assert(name.last() == text::lower(stripped.last()));
    assert(text::strip_trailing(name, '.') == name);
    assert(text::lowered(name) =~= name);
    assert(network_guard::comparable_host(name) == name);
}

/// A port that is taken is reported: the gateway says which one it was, and
/// does not look for another.
pub proof fn law_a_port_conflict_is_reported_with_its_port(
    settings: WebGatewaySettings,
    error: Seq<char>,
)
    ensures
        failed_status(settings, error).port == settings.port,
        !failed_status(settings, error).running,
        failed_status(settings, error).last_error == Some(
            "failed to start web access: TCP port "@ + (numbers::decimal(settings.port as nat) + (
            " is unavailable ("@ + error + ")"@)),
        ),
{
    assert(port_taken(settings.port, error) =~= "failed to start web access: TCP port "@ + (
    numbers::decimal(settings.port as nat) + (" is unavailable ("@ + error + ")"@)));
}

/// A gateway that is switched off, could not be started, or has ended does not
/// keep the program in the background.
pub proof fn law_only_a_served_gateway_runs(
    settings: WebGatewaySettings,
    status: StatusView,
    error: Seq<char>,
    count: usize,
    ended_by: Option<Seq<char>>,
)
    ensures
        !stopped_status(settings).running,
        !failed_status(settings, error).running,
        !ended_status(status, count, ended_by).running,
        running_status(settings, status.addresses).running,
{
}

} // verus!
