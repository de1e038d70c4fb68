//! The gateway's settings and status, and the errors of its configuration.
use vstd::prelude::*;
use vstd::utf8;

use crate::order;
use crate::order::sorted_distinct;
use crate::text;
use crate::text::{chars_of, is_control, lower_between, owned, strip_trailing_bound, trim_bounds};

verus! {

pub const DEFAULT_WEB_GATEWAY_PORT: u16 = 8767;

/// Why the gateway could not be configured.
#[derive(Debug, Clone, PartialEq, Eq)]
pub enum WebGatewayError {
    InvalidSettings(String),
    Bind { address: String, source: String },
}

impl WebGatewayError {
    /// The stable code of the error.
    pub open spec fn code_text(self) -> Seq<char> {
        match self {
            WebGatewayError::InvalidSettings(_) => "web_gateway.invalid_settings"@,
            WebGatewayError::Bind { .. } => "web_gateway.address_unavailable"@,
        }
    }

    /// What the error says to a person.
    pub open spec fn message_text(self) -> Seq<char> {
        match self {
            WebGatewayError::InvalidSettings(reason) => "invalid web gateway settings: "@ + reason@,
            WebGatewayError::Bind { address, source } => "failed to bind web gateway to "@
                + address@ + ": "@ + source@,
        }
    }

    pub fn code(&self) -> (result: &'static str)
        ensures
            result@ == self.code_text(),
    {
        match self {
            WebGatewayError::InvalidSettings(_) => "web_gateway.invalid_settings",
            WebGatewayError::Bind { .. } => "web_gateway.address_unavailable",
        }
    }

    pub fn message(&self) -> (result: String)
        ensures
            result@ == self.message_text(),
    {
        match self {
            WebGatewayError::InvalidSettings(reason) => {
                let mut out = owned("invalid web gateway settings: ");
                out.append(reason.as_str());
                out
            },
            WebGatewayError::Bind { address, source } => {
                let mut out = owned("failed to bind web gateway to ");
                out.append(address.as_str());
                out.append(": ");
                out.append(source.as_str());
                out
            },
        }
    }
}

/// Which networks the gateway serves.
#[derive(Debug, Clone, Copy, PartialEq, Eq, Structural)]
pub enum WebGatewayBindMode {
    LanOnly,
}

#[derive(Debug, Clone, PartialEq, Eq)]
pub struct WebGatewaySettings {
    pub enabled: bool,
    pub port: u16,
    pub bind_mode: WebGatewayBindMode,
    pub site_name: String,
    pub session_idle_minutes: u32,
    pub allow_vpn_private: bool,
    pub allowed_hostnames: Vec<String>,
}

impl Default for WebGatewaySettings {
    fn default() -> (result: Self)
        ensures
            !result.enabled,
            result.port == DEFAULT_WEB_GATEWAY_PORT,
            result.port == 8767,
            result.bind_mode == WebGatewayBindMode::LanOnly,
            result.site_name@ == Seq::<char>::empty(),
            result.session_idle_minutes == 720,
            !result.allow_vpn_private,
            result.allowed_hostnames@ == Seq::<String>::empty(),
            result.problem() is None,
    {
        let result = WebGatewaySettings {
            enabled: false,
            port: DEFAULT_WEB_GATEWAY_PORT,
            bind_mode: WebGatewayBindMode::LanOnly,
            site_name: String::new(),
            session_idle_minutes: 720,
            allow_vpn_private: false,
            allowed_hostnames: Vec::new(),
        };
        assert(utf8::encode_utf8(Seq::<char>::empty()).len() == 0);
        result
    }
}

impl WebGatewaySettings {
    /// The first thing that is wrong with the settings, where anything is.
    pub open spec fn problem(self) -> Option<Seq<char>> {
        if self.port == 0 {
            Some("web access port must be between 1 and 65535"@)
        } else if !(5 <= self.session_idle_minutes <= 1440) {
            Some("web session idle timeout must be between 5 minutes and 24 hours"@)
        } else if utf8::encode_utf8(self.site_name@).len() > 128 || exists|i: int|
            0 <= i < self.site_name@.len() && text::control(#[trigger] self.site_name@[i]) {
            Some("web site name is invalid or exceeds 128 bytes"@)
        } else {
            None
        }
    }

    pub fn validate(&self) -> (result: Result<(), WebGatewayError>)
        ensures
            match result {
                Ok(()) => self.problem() is None,
                Err(WebGatewayError::InvalidSettings(reason)) => self.problem() == Some(reason@),
                Err(WebGatewayError::Bind { .. }) => false,
            },
    {
        if self.port == 0 {
            return Err(
                WebGatewayError::InvalidSettings(
                    owned("web access port must be between 1 and 65535"),
                ),
            );
        }
        if !(5 <= self.session_idle_minutes && self.session_idle_minutes <= 1440) {
            return Err(
                WebGatewayError::InvalidSettings(
                    owned("web session idle timeout must be between 5 minutes and 24 hours"),
                ),
            );
        }
        if self.site_name.as_str().as_bytes().len() > 128 || has_control(self.site_name.as_str()) {
            return Err(
                WebGatewayError::InvalidSettings(
                    owned("web site name is invalid or exceeds 128 bytes"),
                ),
            );
        }
        Ok(())
    }
}

/// Whether a control character stands in `text`.
fn has_control(text: &str) -> (result: bool)
    ensures
        result == exists|i: int| 0 <= i < text@.len() && text::control(#[trigger] text@[i]),
{
    let chars = chars_of(text);
    let mut i: usize = 0;
    while i < chars.len()
        invariant
            chars@ == text@,
            i <= chars@.len(),
            forall|j: int| 0 <= j < i ==> !text::control(#[trigger] text@[j]),
        decreases chars@.len() - i,
    {
        if is_control(chars[i]) {
            assert(text::control(text@[i as int]));
            return true;
        }
        i += 1;
    }
    false
}

/// What the gateway is doing.
#[derive(Debug, Clone, PartialEq, Eq)]
pub struct WebGatewayStatus {
    pub enabled: bool,
    pub running: bool,
    pub port: u16,
    pub site_name: String,
    pub addresses: Vec<String>,
    pub session_count: usize,
    pub last_error: Option<String>,
}

/// What a status says.
pub struct StatusView {
    pub enabled: bool,
    pub running: bool,
    pub port: u16,
    pub site_name: Seq<char>,
    pub addresses: Seq<Seq<char>>,
    pub session_count: usize,
    pub last_error: Option<Seq<char>>,
}

impl View for WebGatewayStatus {
    type V = StatusView;

    open spec fn view(&self) -> StatusView {
        StatusView {
            enabled: self.enabled,
            running: self.running,
            port: self.port,
            site_name: self.site_name@,
            addresses: text::texts(self.addresses@),
            session_count: self.session_count,
            last_error: match self.last_error {
                Some(error) => Some(error@),
                None => None,
            },
        }
    }
}

impl Default for WebGatewayStatus {
    fn default() -> (result: Self)
        ensures
            !result.enabled,
            !result.running,
            result.port == DEFAULT_WEB_GATEWAY_PORT,
            result.site_name@ == Seq::<char>::empty(),
            result.addresses@ == Seq::<String>::empty(),
            result.session_count == 0,
            result.last_error is None,
    {
        WebGatewayStatus {
            enabled: false,
            running: false,
            port: DEFAULT_WEB_GATEWAY_PORT,
            site_name: String::new(),
            addresses: Vec::new(),
            session_count: 0,
            last_error: None,
        }
    }
}

/// A host name without white space around it, without the dots at its end,
/// and in lower case.
pub open spec fn normal_hostname(name: Seq<char>) -> Seq<char> {
    text::lowered(text::strip_trailing(text::trimmed(name), '.'))
}

/// `t` is the normal form of one of `names`, and not empty.
pub open spec fn names_host(names: Seq<Seq<char>>, t: Seq<char>) -> bool {
    t.len() > 0 && exists|i: int| 0 <= i < names.len() && normal_hostname(#[trigger] names[i]) == t
}

fn normalized(name: &str) -> (result: String)
    ensures
        result@ == normal_hostname(name@),
{
    let chars = chars_of(name);
    assert(chars@.subrange(0, chars@.len() as int) =~= name@);
    let bounds = trim_bounds(&chars, 0, chars.len());
    let end: usize = strip_trailing_bound(&chars, bounds.0, bounds.1, '.');
    lower_between(&chars, bounds.0, end)
}

/// Brings every name to its normal form, leaves out the empty ones, and sorts
/// the rest without repeats.
pub fn normalize_hostnames(hostnames: &mut Vec<String>)
    ensures
        order::increasing(text::texts(final(hostnames)@)),
        forall|t: Seq<char>| #[trigger]
            text::texts(final(hostnames)@).contains(t) <==> names_host(
                text::texts(old(hostnames)@),
                t,
            ),
{
    let mut names: Vec<String> = Vec::new();
    let ghost given = text::texts(hostnames@);
    let mut i: usize = 0;
    while i < hostnames.len()
        invariant
            *hostnames == *old(hostnames),
            given == text::texts(hostnames@),
            i <= hostnames@.len(),
            forall|t: Seq<char>| #[trigger]
                text::texts(names@).contains(t) <==> names_host(given.take(i as int), t),
        decreases hostnames@.len() - i,
    {
        let name = normalized(hostnames[i].as_str());
        let ghost had = names@;
        let ghost t0 = given.take(i as int);
        let ghost t1 = given.take(i + 1);
        let keep = !name.as_str().is_empty();
        let ghost new = name@;
        if keep {
            names.push(name);
        }
        proof {
            assert(t1 =~= t0.push(given[i as int]));
            assert(text::texts(names@) =~= if keep { text::texts(had).push(new) } else { text::texts(had) });
            assert forall|t: Seq<char>| #[trigger] text::texts(names@).contains(t) <==> names_host(
                t1,
                t,
            ) by {
                assert(text::texts(had).contains(t) <==> names_host(t0, t));
                if names_host(t1, t) {
                    let k = choose|k: int| 0 <= k < t1.len() && normal_hostname(#[trigger] t1[k]) == t;
                    if k < i {
                        assert(t0[k] == t1[k]);
                        assert(names_host(t0, t));
                        let p = choose|p: int|
                            0 <= p < text::texts(had).len() && text::texts(had)[p] == t;
                        assert(text::texts(names@)[p] == t);
                    } else {
                        assert(text::texts(names@).last() == t);
                    }
                }
                if names_host(t0, t) {
                    let k = choose|k: int| 0 <= k < t0.len() && normal_hostname(#[trigger] t0[k]) == t;
                    assert(t1[k] == t0[k]);
                    assert(names_host(t1, t));
                }
                if text::texts(names@).contains(t) {
                    let p = choose|p: int|
                        0 <= p < text::texts(names@).len() && text::texts(names@)[p] == t;
                    if p < had.len() {
                        assert(text::texts(had)[p] == t);
                        assert(text::texts(had).contains(t));
                    } else {
                        assert(t1[i as int] == given[i as int]);
                        assert(normal_hostname(t1[i as int]) == t);
                        assert(names_host(t1, t));
                    }
                }
            }
        }
        i += 1;
    }
    assert(given.take(i as int) =~= given);
    let sorted = sorted_distinct(&names);
    assert forall|t: Seq<char>| #[trigger] text::texts(sorted@).contains(t) <==> names_host(given, t) by {
        assert(text::texts(names@).contains(t) <==> names_host(given, t));
    }
    *hostnames = sorted;
}

} // verus!
